//! The shared interval interpreter. Silence and black detection read
//! the same stream shape — a start annotation opens an interval, a
//! duration annotation closes it — and differ only in key names and in
//! which result list a closed interval lands in. Closed intervals are
//! converted into decoder ticks through the stream's time base and kept
//! only when their duration passes the configured bounds.

use vstd::prelude::*;

use crate::check::{duration_bounds, spec_duration_bounds, CheckParameterMap};
use crate::decimal::{parse_decimal, spec_parse_dec, spec_ticks, to_ticks, Decimal};
use crate::deep::{
    lemma_models_update, models, BlackResult, SilenceResult, StreamProbeModel, StreamProbeResult,
};
use crate::entry::{entry_stream, spec_entry_stream, spec_lookup, EntryResult};
use crate::rational::Rational;

verus! {

/// Which interval detector runs: they share the interpreter and differ
/// in annotation keys and target result list.
#[derive(Clone, Copy, Debug, PartialEq, Eq, Structural)]
pub enum IntervalKind {
    Silence,
    Black,
}

pub open spec fn start_key(kind: IntervalKind) -> Seq<char> {
    match kind {
        IntervalKind::Silence => "lavfi.silence_start"@,
        IntervalKind::Black => "lavfi.black_start"@,
    }
}

pub open spec fn duration_key(kind: IntervalKind) -> Seq<char> {
    match kind {
        IntervalKind::Silence => "lavfi.silence_duration"@,
        IntervalKind::Black => "lavfi.black_duration"@,
    }
}

fn start_key_str(kind: IntervalKind) -> (r: &'static str)
    ensures
        r@ == start_key(kind),
{
    match kind {
        IntervalKind::Silence => "lavfi.silence_start",
        IntervalKind::Black => "lavfi.black_start",
    }
}

fn duration_key_str(kind: IntervalKind) -> (r: &'static str)
    ensures
        r@ == duration_key(kind),
{
    match kind {
        IntervalKind::Silence => "lavfi.silence_duration",
        IntervalKind::Black => "lavfi.black_duration",
    }
}

/// Scanner state: the accumulators, plus one opened-but-unclosed
/// interval start (in seconds) per stream.
#[verifier::ext_equal]
pub ghost struct IntervalScan {
    pub streams: Seq<StreamProbeModel>,
    pub pending: Seq<Option<Decimal>>,
}

/// The configured duration bounds, inclusive on both sides; an absent
/// bound constrains nothing.
pub open spec fn spec_duration_ok(dur: int, min: Option<u64>, max: Option<u64>) -> bool {
    &&& (min matches Some(m) ==> dur >= m)
    &&& (max matches Some(m) ==> dur <= m)
}

/// One accumulator extended by one closed interval.
pub open spec fn spec_push_interval(
    s: StreamProbeModel,
    kind: IntervalKind,
    start: int,
    end: int,
) -> StreamProbeModel {
    match kind {
        IntervalKind::Silence => StreamProbeModel {
            detected_silence: s.detected_silence.push(
                SilenceResult { start: start as i64, end: end as i64 },
            ),
            ..s
        },
        IntervalKind::Black => StreamProbeModel {
            detected_black: s.detected_black.push(
                BlackResult { start: start as i64, end: end as i64 },
            ),
            ..s
        },
    }
}

/// A start annotation (when present and well-formed) opens an interval
/// for the entry's stream, replacing any interval left open.
pub open spec fn spec_open(st: IntervalScan, e: EntryResult, kind: IntervalKind, s: int) -> IntervalScan {
    match spec_lookup(e@, start_key(kind)) {
        None => st,
        Some(v) => match spec_parse_dec(v) {
            Some(d) => IntervalScan { pending: st.pending.update(s, Some(d)), ..st },
            None => st,
        },
    }
}

/// A duration annotation (when present and well-formed, with an open
/// interval waiting) closes the interval: both start and duration are
/// converted to ticks, and the interval is kept exactly when everything
/// fits the tick domain and the duration passes the bounds. The opened
/// start is consumed either way.
pub open spec fn spec_close(
    st: IntervalScan,
    e: EntryResult,
    kind: IntervalKind,
    s: int,
    tb: Rational,
    min: Option<u64>,
    max: Option<u64>,
) -> IntervalScan {
    match spec_lookup(e@, duration_key(kind)) {
        None => st,
        Some(v) => match spec_parse_dec(v) {
            None => st,
            Some(dv) => match st.pending[s] {
                None => st,
                Some(sv) => {
                    let cleared = IntervalScan { pending: st.pending.update(s, None), ..st };
                    let start = spec_ticks(sv, tb);
                    let dur = spec_ticks(dv, tb);
                    if start <= i64::MAX && dur <= i64::MAX && start + dur <= i64::MAX
                        && spec_duration_ok(dur, min, max) {
                        IntervalScan {
                            streams: cleared.streams.update(
                                s,
                                spec_push_interval(cleared.streams[s], kind, start, start + dur),
                            ),
                            ..cleared
                        }
                    } else {
                        cleared
                    }
                },
            },
        },
    }
}

/// One entry folded into the scan: entries without a usable stream
/// index, for a stream outside the detector's set, or with an unusable
/// time base change nothing.
pub open spec fn spec_interval_step(
    st: IntervalScan,
    e: EntryResult,
    kind: IntervalKind,
    indexes: Seq<usize>,
    tbs: Seq<Rational>,
    min: Option<u64>,
    max: Option<u64>,
) -> IntervalScan {
    match spec_entry_stream(e, st.streams.len() as int) {
        None => st,
        Some(s) => {
            if indexes.contains(s as usize) && s < tbs.len() && tbs[s].wf() {
                spec_close(spec_open(st, e, kind, s), e, kind, s, tbs[s], min, max)
            } else {
                st
            }
        },
    }
}

pub open spec fn spec_interval_fold(
    st: IntervalScan,
    entries: Seq<EntryResult>,
    kind: IntervalKind,
    indexes: Seq<usize>,
    tbs: Seq<Rational>,
    min: Option<u64>,
    max: Option<u64>,
) -> IntervalScan
    decreases entries.len(),
{
    if entries.len() == 0 {
        st
    } else {
        spec_interval_fold(
            spec_interval_step(st, entries[0], kind, indexes, tbs, min, max),
            entries.drop_first(),
            kind,
            indexes,
            tbs,
            min,
            max,
        )
    }
}

/// The whole interval pass over an annotation stream, starting with no
/// interval open.
pub open spec fn spec_detect_intervals(
    ss: Seq<StreamProbeModel>,
    entries: Seq<EntryResult>,
    kind: IntervalKind,
    indexes: Seq<usize>,
    tbs: Seq<Rational>,
    min: Option<u64>,
    max: Option<u64>,
) -> Seq<StreamProbeModel> {
    spec_interval_fold(
        IntervalScan { streams: ss, pending: Seq::new(ss.len(), |i: int| None) },
        entries,
        kind,
        indexes,
        tbs,
        min,
        max,
    ).streams
}

/// Linear membership scan.
pub fn contains_index(v: &Vec<usize>, x: usize) -> (r: bool)
    ensures
        r == v@.contains(x),
{
    let n = v.len();
    let mut i: usize = 0;
    while i < n
        invariant
            i <= n,
            n == v@.len(),
            forall|k: int| 0 <= k < i ==> v@[k] != x,
        decreases n - i,
    {
        if v[i] == x {
            return true;
        }
        i = i + 1;
    }
    false
}

fn duration_ok(dur: i64, min: &Option<u64>, max: &Option<u64>) -> (r: bool)
    requires
        dur >= 0,
    ensures
        r == spec_duration_ok(dur as int, *min, *max),
{
    if let Some(m) = min {
        if (dur as u64) < *m {
            return false;
        }
    }
    if let Some(m) = max {
        if (dur as u64) > *m {
            return false;
        }
    }
    true
}

/// Interprets an annotation stream into closed, bounded intervals, one
/// result list entry per accepted interval, in arrival order.
pub fn detect_intervals(
    entries: &Vec<EntryResult>,
    streams: &mut Vec<StreamProbeResult>,
    kind: IntervalKind,
    indexes: &Vec<usize>,
    time_bases: &Vec<Rational>,
    params: &CheckParameterMap,
)
    requires
        time_bases@.len() == old(streams)@.len(),
    ensures
        final(streams)@.len() == old(streams)@.len(),
        models(final(streams)@) == spec_detect_intervals(
            models(old(streams)@),
            entries@,
            kind,
            indexes@,
            time_bases@,
            spec_duration_bounds(params@).0,
            spec_duration_bounds(params@).1,
        ),
{
    let bounds = duration_bounds(params);
    let min = bounds.0;
    let max = bounds.1;
    let n = streams.len();
    let mut pending: Vec<Option<Decimal>> = Vec::new();
    let mut i: usize = 0;
    while i < n
        invariant
            i <= n,
            pending@.len() == i,
            forall|k: int| 0 <= k < i ==> pending@[k] is None,
        decreases n - i,
    {
        pending.push(None);
        i = i + 1;
    }
    let ghost init = IntervalScan { streams: models(streams@), pending: pending@ };
    let ghost total = spec_interval_fold(init, entries@, kind, indexes@, time_bases@, min, max);
    proof {
        assert(init =~= IntervalScan {
            streams: models(old(streams)@),
            pending: Seq::new(models(old(streams)@).len(), |i: int| None),
        });
        assert(entries@.skip(0) =~= entries@);
    }
    let m = entries.len();
    let mut j: usize = 0;
    while j < m
        invariant
            j <= m,
            m == entries@.len(),
            streams@.len() == n,
            time_bases@.len() == n,
            pending@.len() == n,
            forall|k: int|
                0 <= k < n ==> (#[trigger] pending@[k] matches Some(d) ==> d.wf()),
            spec_interval_fold(
                IntervalScan { streams: models(streams@), pending: pending@ },
                entries@.skip(j as int),
                kind,
                indexes@,
                time_bases@,
                min,
                max,
            ) == total,
        decreases m - j,
    {
        let ghost stv = IntervalScan { streams: models(streams@), pending: pending@ };
        proof {
            assert(entries@.skip(j as int)[0] == entries@[j as int]);
            assert(entries@.skip(j as int).drop_first() =~= entries@.skip(j as int + 1));
        }
        let e = &entries[j];
        match entry_stream(e, n) {
            None => {
                proof {
                    assert(spec_interval_step(stv, entries@[j as int], kind, indexes@, time_bases@, min, max)
                        == stv);
                }
            },
            Some(s) => {
                if contains_index(indexes, s) && time_bases[s].is_wf() {
                    let tb = time_bases[s];
                    // a start annotation opens an interval
                    let mut opened: Option<Decimal> = None;
                    match e.get(start_key_str(kind)) {
                        Some(v) => match parse_decimal(v.as_str()) {
                            Some(d) => {
                                opened = Some(d);
                            },
                            None => {},
                        },
                        None => {},
                    }
                    if let Some(d) = opened {
                        pending[s] = Some(d);
                    }
                    let ghost st1 = spec_open(stv, entries@[j as int], kind, s as int);
                    proof {
                        assert(pending@ =~= st1.pending);
                        assert(models(streams@) == st1.streams);
                    }
                    // a duration annotation closes it
                    let mut closed: Option<Decimal> = None;
                    match e.get(duration_key_str(kind)) {
                        Some(v) => match parse_decimal(v.as_str()) {
                            Some(d) => {
                                closed = Some(d);
                            },
                            None => {},
                        },
                        None => {},
                    }
                    if let Some(dv) = closed {
                        let pend = pending[s];
                        if let Some(sv) = pend {
                            pending[s] = None;
                            let a = to_ticks(&sv, &tb);
                            let b = to_ticks(&dv, &tb);
                            let ghost pre_push = models(streams@);
                            if let (Some(start), Some(dur)) = (a, b) {
                                if dur <= i64::MAX - start && duration_ok(dur, &min, &max) {
                                    let ghost before = streams@;
                                    let elem = &mut streams[s];
                                    match kind {
                                        IntervalKind::Silence => {
                                            elem.detected_silence.push(
                                                SilenceResult { start, end: start + dur },
                                            );
                                        },
                                        IntervalKind::Black => {
                                            elem.detected_black.push(
                                                BlackResult { start, end: start + dur },
                                            );
                                        },
                                    }
                                    proof {
                                        lemma_models_update(before, s as int, streams@[s as int]);
                                        assert(streams@[s as int]@ =~= spec_push_interval(
                                            pre_push[s as int],
                                            kind,
                                            start as int,
                                            start as int + dur as int,
                                        ));
                                    }
                                }
                            }
                        }
                    }
                    proof {
                        assert(IntervalScan { streams: models(streams@), pending: pending@ }
                            =~= spec_close(st1, entries@[j as int], kind, s as int, tb, min, max));
                    }
                } else {
                    proof {
                        assert(spec_interval_step(
                            stv,
                            entries@[j as int],
                            kind,
                            indexes@,
                            time_bases@,
                            min,
                            max,
                        ) == stv);
                    }
                }
            },
        }
        j = j + 1;
    }
    proof {
        assert(entries@.skip(m as int) =~= Seq::<EntryResult>::empty());
    }
}

/// The tick intervals a stream record holds for one detector.
pub open spec fn kind_intervals(s: StreamProbeModel, kind: IntervalKind) -> Seq<(int, int)> {
    match kind {
        IntervalKind::Silence => s.detected_silence.map_values(
            |r: SilenceResult| (r.start as int, r.end as int),
        ),
        IntervalKind::Black => s.detected_black.map_values(
            |r: BlackResult| (r.start as int, r.end as int),
        ),
    }
}

/// Every interval of one detector's result lists passes the duration
/// bounds.
pub open spec fn all_intervals_ok(
    ss: Seq<StreamProbeModel>,
    kind: IntervalKind,
    min: Option<u64>,
    max: Option<u64>,
) -> bool {
    forall|k: int, j: int|
        0 <= k < ss.len() && 0 <= j < kind_intervals(ss[k], kind).len() ==> spec_duration_ok(
            (#[trigger] kind_intervals(ss[k], kind)[j]).1 - kind_intervals(ss[k], kind)[j].0,
            min,
            max,
        )
}

proof fn lemma_step_intervals_ok(
    st: IntervalScan,
    e: EntryResult,
    kind: IntervalKind,
    indexes: Seq<usize>,
    tbs: Seq<Rational>,
    min: Option<u64>,
    max: Option<u64>,
)
    requires
        all_intervals_ok(st.streams, kind, min, max),
    ensures
        all_intervals_ok(
            spec_interval_step(st, e, kind, indexes, tbs, min, max).streams,
            kind,
            min,
            max,
        ),
{
    let len = st.streams.len() as int;
    let out = spec_interval_step(st, e, kind, indexes, tbs, min, max).streams;
    match spec_entry_stream(e, len) {
        None => {},
        Some(s) => {
            if indexes.contains(s as usize) && s < tbs.len() && tbs[s].wf() {
                let st1 = spec_open(st, e, kind, s);
                let tb = tbs[s];
                match spec_lookup(e@, duration_key(kind)) {
                    None => {},
                    Some(v) => match spec_parse_dec(v) {
                        None => {},
                        Some(dv) => match st1.pending[s] {
                            None => {},
                            Some(sv) => {
                                let start = spec_ticks(sv, tb);
                                let dur = spec_ticks(dv, tb);
                                if start <= i64::MAX && dur <= i64::MAX && start + dur <= i64::MAX
                                    && spec_duration_ok(dur, min, max) {
                                    crate::decimal::lemma_ticks_nonneg(sv, tb);
                                    crate::decimal::lemma_ticks_nonneg(dv, tb);
                                    let cur = st.streams[s];
                                    let pushed = spec_push_interval(cur, kind, start, start + dur);
                                    assert(out =~= st.streams.update(s, pushed));
                                    assert(kind_intervals(pushed, kind) =~= kind_intervals(
                                        cur,
                                        kind,
                                    ).push((start, start + dur)));
                                    assert forall|k: int, j: int|
                                        0 <= k < out.len() && 0 <= j < kind_intervals(
                                            out[k],
                                            kind,
                                        ).len() implies spec_duration_ok(
                                        (#[trigger] kind_intervals(out[k], kind)[j]).1
                                            - kind_intervals(out[k], kind)[j].0,
                                        min,
                                        max,
                                    ) by {
                                        if k == s {
                                            let old_iv = kind_intervals(cur, kind);
                                            if j < old_iv.len() {
                                                assert(kind_intervals(out[k], kind)[j]
                                                    == kind_intervals(st.streams[k], kind)[j]);
                                                assert(spec_duration_ok(
                                                    (kind_intervals(st.streams[k], kind)[j]).1
                                                        - kind_intervals(st.streams[k], kind)[j].0,
                                                    min,
                                                    max,
                                                ));
                                            } else {
                                                assert(kind_intervals(out[k], kind)[j] == (
                                                    start,
                                                    start + dur,
                                                ));
                                            }
                                        } else {
                                            assert(out[k] == st.streams[k]);
                                            assert(spec_duration_ok(
                                                (kind_intervals(st.streams[k], kind)[j]).1
                                                    - kind_intervals(st.streams[k], kind)[j].0,
                                                min,
                                                max,
                                            ));
                                        }
                                    }
                                }
                            },
                        },
                    },
                }
            }
        },
    }
}

proof fn lemma_fold_intervals_ok(
    st: IntervalScan,
    entries: Seq<EntryResult>,
    kind: IntervalKind,
    indexes: Seq<usize>,
    tbs: Seq<Rational>,
    min: Option<u64>,
    max: Option<u64>,
)
    requires
        all_intervals_ok(st.streams, kind, min, max),
    ensures
        all_intervals_ok(
            spec_interval_fold(st, entries, kind, indexes, tbs, min, max).streams,
            kind,
            min,
            max,
        ),
    decreases entries.len(),
{
    if entries.len() > 0 {
        lemma_step_intervals_ok(st, entries[0], kind, indexes, tbs, min, max);
        lemma_fold_intervals_ok(
            spec_interval_step(st, entries[0], kind, indexes, tbs, min, max),
            entries.drop_first(),
            kind,
            indexes,
            tbs,
            min,
            max,
        );
    }
}

/// Accepted intervals respect the configured bounds: whatever annotation
/// stream the interval pass consumes, every interval it leaves in a
/// result list — beyond those the caller already held, all of which
/// passed the bounds — has `min <= end - start <= max` wherever a bound
/// is present. An interval violating either bound never appears.
pub proof fn lemma_detect_intervals_within_bounds(
    ss: Seq<StreamProbeModel>,
    entries: Seq<EntryResult>,
    kind: IntervalKind,
    indexes: Seq<usize>,
    tbs: Seq<Rational>,
    min: Option<u64>,
    max: Option<u64>,
)
    requires
        all_intervals_ok(ss, kind, min, max),
    ensures
        all_intervals_ok(
            spec_detect_intervals(ss, entries, kind, indexes, tbs, min, max),
            kind,
            min,
            max,
        ),
{
    lemma_fold_intervals_ok(
        IntervalScan { streams: ss, pending: Seq::new(ss.len(), |i: int| None) },
        entries,
        kind,
        indexes,
        tbs,
        min,
        max,
    );
}

} // verus!
