//! The combined black-and-silence detector. It runs no filter of its
//! own: it correlates the black intervals and silence intervals the
//! earlier passes already produced, and emits the intersection of every
//! black/silence pair that overlaps for at least the configured minimum
//! — exactly one result per qualifying pair, video stream by video
//! stream, audio stream by audio stream, in list order.

use vstd::prelude::*;

use crate::check::{duration_bounds, spec_duration_bounds, CheckParameterMap};
use crate::deep::{
    lemma_models_update, models, BlackAndSilenceResult, BlackResult, SilenceResult,
    StreamProbeModel, StreamProbeResult,
};

verus! {

/// The intersection of a black and a silence interval.
pub open spec fn spec_bas_pair(b: BlackResult, s: SilenceResult) -> BlackAndSilenceResult {
    BlackAndSilenceResult {
        start: if b.start >= s.start {
            b.start
        } else {
            s.start
        },
        end: if b.end <= s.end {
            b.end
        } else {
            s.end
        },
    }
}

/// Whether the pair overlaps long enough:
/// `min(b.end, s.end) - max(b.start, s.start) >= min_overlap`, with an
/// absent bound demanding only a non-negative overlap.
pub open spec fn spec_bas_qualifies(
    b: BlackResult,
    s: SilenceResult,
    min_overlap: Option<u64>,
) -> bool {
    let p = spec_bas_pair(b, s);
    match min_overlap {
        Some(m) => p.end - p.start >= m,
        None => p.end - p.start >= 0,
    }
}

/// One black interval against a silence list: the qualifying
/// intersections, in list order.
pub open spec fn spec_overlaps_one(
    b: BlackResult,
    silence: Seq<SilenceResult>,
    min_overlap: Option<u64>,
) -> Seq<BlackAndSilenceResult>
    decreases silence.len(),
{
    if silence.len() == 0 {
        Seq::empty()
    } else {
        let head: Seq<BlackAndSilenceResult> = if spec_bas_qualifies(b, silence[0], min_overlap) {
            seq![spec_bas_pair(b, silence[0])]
        } else {
            Seq::empty()
        };
        head + spec_overlaps_one(b, silence.drop_first(), min_overlap)
    }
}

/// A black list against a silence list, black-outer.
pub open spec fn spec_overlaps(
    black: Seq<BlackResult>,
    silence: Seq<SilenceResult>,
    min_overlap: Option<u64>,
) -> Seq<BlackAndSilenceResult>
    decreases black.len(),
{
    if black.len() == 0 {
        Seq::empty()
    } else {
        spec_overlaps_one(black[0], silence, min_overlap) + spec_overlaps(
            black.drop_first(),
            silence,
            min_overlap,
        )
    }
}

/// One video stream's black list against every audio stream's silence
/// list, audio streams in the given order.
pub open spec fn spec_bas_from_audio(
    ss: Seq<StreamProbeModel>,
    black: Seq<BlackResult>,
    audio: Seq<usize>,
    min_overlap: Option<u64>,
) -> Seq<BlackAndSilenceResult>
    decreases audio.len(),
{
    if audio.len() == 0 {
        Seq::empty()
    } else {
        let from_stream: Seq<BlackAndSilenceResult> = if (audio[0] as int) < ss.len() {
            spec_overlaps(black, ss[audio[0] as int].detected_silence, min_overlap)
        } else {
            Seq::empty()
        };
        from_stream + spec_bas_from_audio(ss, black, audio.drop_first(), min_overlap)
    }
}

/// The whole pass: each video stream's record grows by the qualifying
/// intersections of its black intervals with every audio stream's
/// silence intervals.
pub open spec fn spec_detect_black_and_silence(
    ss: Seq<StreamProbeModel>,
    video: Seq<usize>,
    audio: Seq<usize>,
    min_overlap: Option<u64>,
) -> Seq<StreamProbeModel>
    decreases video.len(),
{
    if video.len() == 0 {
        ss
    } else {
        let v = video[0] as int;
        let ss1 = if 0 <= v < ss.len() {
            ss.update(
                v,
                StreamProbeModel {
                    black_and_silence: ss[v].black_and_silence + spec_bas_from_audio(
                        ss,
                        ss[v].detected_black,
                        audio,
                        min_overlap,
                    ),
                    ..ss[v]
                },
            )
        } else {
            ss
        };
        spec_detect_black_and_silence(ss1, video.drop_first(), audio, min_overlap)
    }
}

/// A result is emitted for a black/silence pair exactly when the pair
/// overlaps for at least the configured minimum, and exactly one result
/// per qualifying pair: extending the scanned silence list by its next
/// interval appends that pair's intersection when it qualifies, and
/// nothing otherwise.
pub proof fn lemma_black_and_silence_iff(
    b: BlackResult,
    silence: Seq<SilenceResult>,
    min_overlap: Option<u64>,
    k: int,
)
    requires
        0 <= k < silence.len(),
    ensures
        spec_overlaps_one(b, silence.take(k + 1), min_overlap) == spec_overlaps_one(
            b,
            silence.take(k),
            min_overlap,
        ) + (if spec_bas_qualifies(b, silence[k], min_overlap) {
            seq![spec_bas_pair(b, silence[k])]
        } else {
            Seq::<BlackAndSilenceResult>::empty()
        }),
    decreases k,
{
    let tail: Seq<BlackAndSilenceResult> = if spec_bas_qualifies(b, silence[k], min_overlap) {
        seq![spec_bas_pair(b, silence[k])]
    } else {
        Seq::empty()
    };
    if k == 0 {
        assert(silence.take(0) =~= Seq::<SilenceResult>::empty());
        assert(silence.take(1)[0] == silence[0]);
        assert(silence.take(1).drop_first() =~= Seq::<SilenceResult>::empty());
        assert(spec_overlaps_one(b, Seq::<SilenceResult>::empty(), min_overlap)
            == Seq::<BlackAndSilenceResult>::empty());
        assert(tail + Seq::<BlackAndSilenceResult>::empty() =~= tail);
        assert(spec_overlaps_one(b, silence.take(1), min_overlap) =~= tail);
    } else {
        let s1 = silence.drop_first();
        lemma_black_and_silence_iff(b, s1, min_overlap, k - 1);
        assert(silence.take(k + 1)[0] == silence[0]);
        assert(silence.take(k)[0] == silence[0]);
        assert(silence.take(k + 1).drop_first() =~= s1.take(k));
        assert(silence.take(k).drop_first() =~= s1.take(k - 1));
        assert(s1[k - 1] == silence[k]);
        let head: Seq<BlackAndSilenceResult> = if spec_bas_qualifies(b, silence[0], min_overlap) {
            seq![spec_bas_pair(b, silence[0])]
        } else {
            Seq::empty()
        };
        assert(spec_overlaps_one(b, silence.take(k + 1), min_overlap) == head + spec_overlaps_one(
            b,
            s1.take(k),
            min_overlap,
        ));
        assert(spec_overlaps_one(b, silence.take(k), min_overlap) == head + spec_overlaps_one(
            b,
            s1.take(k - 1),
            min_overlap,
        ));
        assert(head + (spec_overlaps_one(b, s1.take(k - 1), min_overlap) + tail) =~= (head
            + spec_overlaps_one(b, s1.take(k - 1), min_overlap)) + tail);
    }
}

/// Appends the qualifying intersections of one black interval with a
/// silence list.
fn overlaps_one_of(
    b: BlackResult,
    silence: &Vec<SilenceResult>,
    min_overlap: &Option<u64>,
    out: &mut Vec<BlackAndSilenceResult>,
)
    ensures
        final(out)@ == old(out)@ + spec_overlaps_one(b, silence@, *min_overlap),
{
    let n = silence.len();
    let mut i: usize = 0;
    proof {
        assert(silence@.skip(0) =~= silence@);
    }
    while i < n
        invariant
            i <= n,
            n == silence@.len(),
            out@ + spec_overlaps_one(b, silence@.skip(i as int), *min_overlap) == old(out)@
                + spec_overlaps_one(b, silence@, *min_overlap),
        decreases n - i,
    {
        let ghost pre = out@;
        let ghost rest = silence@.skip(i as int);
        proof {
            assert(rest[0] == silence@[i as int]);
            assert(rest.drop_first() =~= silence@.skip(i as int + 1));
        }
        let s = silence[i];
        let ov_start: i64 = if b.start >= s.start {
            b.start
        } else {
            s.start
        };
        let ov_end: i64 = if b.end <= s.end {
            b.end
        } else {
            s.end
        };
        let ov_len: i128 = (ov_end as i128) - (ov_start as i128);
        let qualifies: bool = match min_overlap {
            Some(m) => ov_len >= (*m as i128),
            None => ov_len >= 0,
        };
        if qualifies {
            out.push(BlackAndSilenceResult { start: ov_start, end: ov_end });
            proof {
                assert(out@ =~= pre + seq![spec_bas_pair(b, silence@[i as int])]);
                assert((pre + seq![spec_bas_pair(b, silence@[i as int])]) + spec_overlaps_one(
                    b,
                    rest.drop_first(),
                    *min_overlap,
                ) =~= pre + spec_overlaps_one(b, rest, *min_overlap));
            }
        } else {
            proof {
                assert(pre + spec_overlaps_one(b, rest.drop_first(), *min_overlap) =~= pre
                    + spec_overlaps_one(b, rest, *min_overlap));
            }
        }
        i = i + 1;
    }
    proof {
        assert(silence@.skip(n as int) =~= Seq::<SilenceResult>::empty());
        assert(out@ + Seq::<BlackAndSilenceResult>::empty() =~= out@);
        assert(old(out)@ + spec_overlaps_one(b, silence@, *min_overlap) =~= old(out)@
            + spec_overlaps_one(b, silence@, *min_overlap));
    }
}

/// Appends the qualifying intersections of a black list with a silence
/// list, black-outer.
fn overlaps_of(
    black: &Vec<BlackResult>,
    silence: &Vec<SilenceResult>,
    min_overlap: &Option<u64>,
    out: &mut Vec<BlackAndSilenceResult>,
)
    ensures
        final(out)@ == old(out)@ + spec_overlaps(black@, silence@, *min_overlap),
{
    let n = black.len();
    let mut i: usize = 0;
    proof {
        assert(black@.skip(0) =~= black@);
    }
    while i < n
        invariant
            i <= n,
            n == black@.len(),
            out@ + spec_overlaps(black@.skip(i as int), silence@, *min_overlap) == old(out)@
                + spec_overlaps(black@, silence@, *min_overlap),
        decreases n - i,
    {
        let ghost pre = out@;
        let ghost rest = black@.skip(i as int);
        proof {
            assert(rest[0] == black@[i as int]);
            assert(rest.drop_first() =~= black@.skip(i as int + 1));
        }
        overlaps_one_of(black[i], silence, min_overlap, out);
        proof {
            assert((pre + spec_overlaps_one(black@[i as int], silence@, *min_overlap))
                + spec_overlaps(rest.drop_first(), silence@, *min_overlap) =~= pre + spec_overlaps(
                rest,
                silence@,
                *min_overlap,
            ));
        }
        i = i + 1;
    }
    proof {
        assert(black@.skip(n as int) =~= Seq::<BlackResult>::empty());
        assert(out@ + Seq::<BlackAndSilenceResult>::empty() =~= out@);
    }
}

/// Correlates the already-detected black and silence intervals: for
/// every video stream, in order, the qualifying intersections with
/// every audio stream's silences are appended to its
/// black-and-silence list. The `"duration"` knob's `min` is the
/// minimum overlap.
pub fn detect_black_and_silence(
    streams: &mut Vec<StreamProbeResult>,
    video_indexes: &Vec<usize>,
    audio_indexes: &Vec<usize>,
    params: &CheckParameterMap,
)
    ensures
        final(streams)@.len() == old(streams)@.len(),
        models(final(streams)@) == spec_detect_black_and_silence(
            models(old(streams)@),
            video_indexes@,
            audio_indexes@,
            spec_duration_bounds(params@).0,
        ),
{
    let bounds = duration_bounds(params);
    let min_overlap = bounds.0;
    let n = streams.len();
    let nv = video_indexes.len();
    let mut vi: usize = 0;
    proof {
        assert(video_indexes@.skip(0) =~= video_indexes@);
    }
    while vi < nv
        invariant
            vi <= nv,
            nv == video_indexes@.len(),
            streams@.len() == n,
            spec_detect_black_and_silence(
                models(streams@),
                video_indexes@.skip(vi as int),
                audio_indexes@,
                min_overlap,
            ) == spec_detect_black_and_silence(
                models(old(streams)@),
                video_indexes@,
                audio_indexes@,
                min_overlap,
            ),
        decreases nv - vi,
    {
        let ghost pre = models(streams@);
        let ghost vrest = video_indexes@.skip(vi as int);
        proof {
            assert(vrest[0] == video_indexes@[vi as int]);
            assert(vrest.drop_first() =~= video_indexes@.skip(vi as int + 1));
        }
        let v = video_indexes[vi];
        if v < n {
            let mut additions: Vec<BlackAndSilenceResult> = Vec::new();
            let na = audio_indexes.len();
            let mut ai: usize = 0;
            proof {
                assert(audio_indexes@.skip(0) =~= audio_indexes@);
            }
            while ai < na
                invariant
                    ai <= na,
                    na == audio_indexes@.len(),
                    streams@.len() == n,
                    v < n,
                    models(streams@) == pre,
                    additions@ + spec_bas_from_audio(
                        pre,
                        pre[v as int].detected_black,
                        audio_indexes@.skip(ai as int),
                        min_overlap,
                    ) == spec_bas_from_audio(
                        pre,
                        pre[v as int].detected_black,
                        audio_indexes@,
                        min_overlap,
                    ),
                decreases na - ai,
            {
                let ghost acc = additions@;
                let ghost arest = audio_indexes@.skip(ai as int);
                proof {
                    assert(arest[0] == audio_indexes@[ai as int]);
                    assert(arest.drop_first() =~= audio_indexes@.skip(ai as int + 1));
                }
                let a = audio_indexes[ai];
                if a < n {
                    overlaps_of(
                        &streams[v].detected_black,
                        &streams[a].detected_silence,
                        &min_overlap,
                        &mut additions,
                    );
                    proof {
                        assert((acc + spec_overlaps(
                            pre[v as int].detected_black,
                            pre[a as int].detected_silence,
                            min_overlap,
                        )) + spec_bas_from_audio(
                            pre,
                            pre[v as int].detected_black,
                            arest.drop_first(),
                            min_overlap,
                        ) =~= acc + spec_bas_from_audio(
                            pre,
                            pre[v as int].detected_black,
                            arest,
                            min_overlap,
                        ));
                    }
                } else {
                    proof {
                        assert(acc + spec_bas_from_audio(
                            pre,
                            pre[v as int].detected_black,
                            arest.drop_first(),
                            min_overlap,
                        ) =~= acc + spec_bas_from_audio(
                            pre,
                            pre[v as int].detected_black,
                            arest,
                            min_overlap,
                        ));
                    }
                }
                ai = ai + 1;
            }
            proof {
                assert(audio_indexes@.skip(na as int) =~= Seq::<usize>::empty());
                assert(additions@ + Seq::<BlackAndSilenceResult>::empty() =~= additions@);
            }
            let m = additions.len();
            let mut k: usize = 0;
            proof {
                assert(additions@.subrange(0, 0) =~= Seq::<BlackAndSilenceResult>::empty());
                assert(pre[v as int].black_and_silence + Seq::<BlackAndSilenceResult>::empty()
                    =~= pre[v as int].black_and_silence);
                assert(streams@[v as int]@ =~= StreamProbeModel {
                    black_and_silence: pre[v as int].black_and_silence + additions@.subrange(0, 0),
                    ..pre[v as int]
                });
            }
            while k < m
                invariant
                    k <= m,
                    m == additions@.len(),
                    streams@.len() == n,
                    v < n,
                    streams@[v as int]@ =~= (StreamProbeModel {
                        black_and_silence: pre[v as int].black_and_silence + additions@.subrange(
                            0,
                            k as int,
                        ),
                        ..pre[v as int]
                    }),
                    forall|t: int| 0 <= t < n && t != v ==> models(streams@)[t] == pre[t],
                decreases m - k,
            {
                let ghost bstreams = streams@;
                let elem = &mut streams[v];
                elem.black_and_silence.push(additions[k]);
                proof {
                    lemma_models_update(bstreams, v as int, streams@[v as int]);
                    assert((pre[v as int].black_and_silence + additions@.subrange(0, k as int)).push(
                        additions@[k as int],
                    ) =~= pre[v as int].black_and_silence + additions@.subrange(0, k as int + 1));
                    assert(streams@[v as int]@ =~= StreamProbeModel {
                        black_and_silence: pre[v as int].black_and_silence + additions@.subrange(
                            0,
                            k as int + 1,
                        ),
                        ..pre[v as int]
                    });
                }
                k = k + 1;
            }
            proof {
                assert(additions@.subrange(0, m as int) =~= additions@);
                assert(models(streams@) =~= pre.update(
                    v as int,
                    StreamProbeModel {
                        black_and_silence: pre[v as int].black_and_silence + spec_bas_from_audio(
                            pre,
                            pre[v as int].detected_black,
                            audio_indexes@,
                            min_overlap,
                        ),
                        ..pre[v as int]
                    },
                ));
            }
        }
        vi = vi + 1;
    }
    proof {
        assert(video_indexes@.skip(nv as int) =~= Seq::<usize>::empty());
    }
}

} // verus!
