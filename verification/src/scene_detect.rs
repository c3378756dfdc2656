//! Scene-cut detection: the graph that wires one `scdet` filter per
//! video stream, and the interpretation of the `lavfi.scd.time` /
//! `lavfi.scd.score` annotations it produces. A cut's time annotation
//! is converted into a native frame number by
//! `floor(time * time_base / 25 * frame_rate)` — the filter's internal
//! 25 fps base rescaled to the discovered rate, preserved exactly. A
//! cut that follows its predecessor by exactly one frame is the
//! encoder-induced double-cut artifact: it is redirected into the
//! false-scene list instead of the accepted list, and consumes no scene
//! number.

use vstd::prelude::*;

use crate::check::CheckParameterMap;
use crate::decimal::{
    parse_decimal, scene_frame, score_i32, spec_parse_dec, spec_scene_frame, spec_score,
};
use crate::deep::{
    lemma_models_update, models, FalseSceneResult, SceneResult, StreamProbeModel,
    StreamProbeResult,
};
use crate::entry::{entry_stream, spec_entry_stream, spec_lookup, EntryResult};
use crate::order::{
    order_valid, Filter, FilterInput, FilterOutput, FilterParameter, Input, InputKind, Order,
    Output, OutputKind, ParameterValue, Stream,
};
use crate::rational::Rational;
use crate::text::{dec_str_of, numbered_label};

verus! {

/// Scanner state: the accumulators plus the shared 1-based scene
/// counter, which numbers accepted cuts across all streams in arrival
/// order.
#[verifier::ext_equal]
pub ghost struct SceneScan {
    pub streams: Seq<StreamProbeModel>,
    pub counter: int,
}

/// Whether an entry announces an acceptable cut: a resolvable stream
/// index, a parsable time annotation, and a frame number that fits the
/// native domain. Yields the stream and the converted frame number.
pub open spec fn spec_scene_accept(
    len: int,
    e: EntryResult,
    tb: Rational,
    fr: Rational,
) -> Option<(int, int)> {
    match spec_entry_stream(e, len) {
        None => None,
        Some(s) => match spec_lookup(e@, "lavfi.scd.time"@) {
            None => None,
            Some(tv) => match spec_parse_dec(tv) {
                None => None,
                Some(td) => {
                    let frame = spec_scene_frame(td, tb, fr);
                    if frame <= i64::MAX {
                        Some((s, frame))
                    } else {
                        None
                    }
                },
            },
        },
    }
}

/// The cut's score annotation, truncated; zero when absent or
/// unreadable.
pub open spec fn spec_scene_score(e: EntryResult) -> int {
    match spec_lookup(e@, "lavfi.scd.score"@) {
        None => 0,
        Some(sv) => match spec_parse_dec(sv) {
            None => 0,
            Some(sd) => spec_score(sd),
        },
    }
}

/// One entry folded into the scan. A readable cut that sits exactly one
/// frame after its stream's previously accepted cut is the double-cut
/// artifact: it goes into the false-scene list instead of the accepted
/// list and consumes no scene number. Every other readable cut is
/// appended to the accepted list under the next shared scene number.
pub open spec fn spec_scene_step(st: SceneScan, e: EntryResult, tb: Rational, fr: Rational) -> SceneScan {
    match spec_scene_accept(st.streams.len() as int, e, tb, fr) {
        None => st,
        Some((s, frame)) => {
            let cur = st.streams[s];
            if cur.detected_scene.len() > 0 && cur.detected_scene.last().frame == frame - 1 {
                SceneScan {
                    streams: st.streams.update(
                        s,
                        StreamProbeModel {
                            detected_false_scene: cur.detected_false_scene.push(
                                FalseSceneResult { frame: frame as i64 },
                            ),
                            ..cur
                        },
                    ),
                    counter: st.counter,
                }
            } else {
                let counter = st.counter + 1;
                let scene = SceneResult {
                    frame: frame as i64,
                    score: spec_scene_score(e) as i32,
                    scene_number: counter as u64,
                };
                SceneScan {
                    streams: st.streams.update(
                        s,
                        StreamProbeModel { detected_scene: cur.detected_scene.push(scene), ..cur },
                    ),
                    counter,
                }
            }
        },
    }
}

pub open spec fn spec_scene_fold(
    st: SceneScan,
    entries: Seq<EntryResult>,
    tb: Rational,
    fr: Rational,
) -> SceneScan
    decreases entries.len(),
{
    if entries.len() == 0 {
        st
    } else {
        spec_scene_fold(spec_scene_step(st, entries[0], tb, fr), entries.drop_first(), tb, fr)
    }
}

/// The whole scene pass: nothing happens without a usable time base and
/// frame rate.
pub open spec fn spec_detect_scene(
    ss: Seq<StreamProbeModel>,
    entries: Seq<EntryResult>,
    tb: Rational,
    fr: Rational,
) -> Seq<StreamProbeModel> {
    if tb.wf() && fr.wf() {
        spec_scene_fold(SceneScan { streams: ss, counter: 0 }, entries, tb, fr).streams
    } else {
        ss
    }
}

/// A cut is a false scene exactly when it follows its predecessor by
/// one frame: whenever an entry's cut converts to frame `f` for stream
/// `s`, the step appends `f` to the false-scene list — and leaves the
/// accepted list and the scene counter untouched — if and only if the
/// stream's last accepted cut sits at frame `f - 1`; otherwise it
/// appends the cut to the accepted list under the next scene number and
/// leaves the false-scene list untouched.
pub proof fn lemma_false_scene_iff(st: SceneScan, e: EntryResult, tb: Rational, fr: Rational)
    ensures
        spec_scene_accept(st.streams.len() as int, e, tb, fr) matches Some((s, f)) ==> {
            let out = spec_scene_step(st, e, tb, fr);
            let before = st.streams[s];
            let after = out.streams[s];
            if before.detected_scene.len() > 0 && before.detected_scene.last().frame == f - 1 {
                &&& after.detected_scene == before.detected_scene
                &&& after.detected_false_scene == before.detected_false_scene.push(
                    FalseSceneResult { frame: f as i64 },
                )
                &&& out.counter == st.counter
            } else {
                &&& after.detected_scene == before.detected_scene.push(
                    SceneResult {
                        frame: f as i64,
                        score: spec_scene_score(e) as i32,
                        scene_number: (st.counter + 1) as u64,
                    },
                )
                &&& after.detected_false_scene == before.detected_false_scene
                &&& out.counter == st.counter + 1
            }
        },
{
}

/// Builds the scene-cut graph: per video stream, one labelled input,
/// one `scdet` filter at threshold 10, and one video-metadata output
/// surfacing the cut annotations. The result always validates.
pub fn create_graph(filename: &str, video_indexes: Vec<u32>, params: &CheckParameterMap) -> (r:
    Result<Order, String>)
    ensures
        r matches Ok(o) && {
            &&& o.inputs@.len() == video_indexes@.len()
            &&& o.filters@.len() == video_indexes@.len()
            &&& o.outputs@.len() == video_indexes@.len()
            &&& order_valid(o)
            &&& forall|a: int|
                0 <= a < video_indexes@.len() ==> crate::order::graph_element_shape(
                    o,
                    a,
                    video_indexes@[a],
                    filename@,
                    "scdet"@,
                    "scdet_filter"@,
                    "video_input_"@,
                    "video_output_"@,
                    OutputKind::VideoMetadata,
                    seq!["lavfi.scd.time"@, "lavfi.scd.score"@],
                )
            &&& forall|a: int|
                0 <= a < video_indexes@.len() ==> {
                    &&& (#[trigger] o.filters@[a]).parameters@.len() == 1
                    &&& o.filters@[a].parameters@[0].name@ == "threshold"@
                    &&& (o.filters@[a].parameters@[0].value matches ParameterValue::Int64(t) && t
                        == 10)
                }
        },
{
    let n = video_indexes.len();
    let mut inputs: Vec<Input> = Vec::new();
    let mut filters: Vec<Filter> = Vec::new();
    let mut outputs: Vec<Output> = Vec::new();
    let mut i: usize = 0;
    while i < n
        invariant
            i <= n,
            n == video_indexes@.len(),
            inputs@.len() == i,
            filters@.len() == i,
            outputs@.len() == i,
            forall|a: int|
                0 <= a < i ==> {
                    let lab = "video_input_"@ + dec_str_of(video_indexes@[a] as nat);
                    &&& crate::order::spec_input_streams(#[trigger] inputs@[a]).len() == 1
                    &&& (crate::order::spec_input_streams(inputs@[a])[0].label matches Some(l)
                        && l@ == lab)
                },
            forall|a: int|
                0 <= a < i ==> {
                    let lab = "video_input_"@ + dec_str_of(video_indexes@[a] as nat);
                    &&& crate::order::spec_filter_inputs(#[trigger] filters@[a]).len() == 1
                    &&& crate::order::spec_filter_inputs(filters@[a])[0].stream_label@ == lab
                    &&& crate::order::spec_filter_outputs(filters@[a]).len() == 1
                    &&& crate::order::spec_filter_outputs(filters@[a])[0].stream_label@
                        == "video_output_"@ + dec_str_of(video_indexes@[a] as nat)
                },
            forall|a: int|
                0 <= a < i ==> ((#[trigger] outputs@[a]).stream matches Some(l) && l@
                    == "video_output_"@ + dec_str_of(video_indexes@[a] as nat)),
            forall|a: int|
                0 <= a < i ==> {
                    &&& (#[trigger] filters@[a]).name@ == "scdet"@
                    &&& (filters@[a].label matches Some(l) && l@ == "scdet_filter"@ + dec_str_of(
                        video_indexes@[a] as nat,
                    ))
                    &&& crate::order::spec_filter_inputs(filters@[a])[0].kind == InputKind::Stream
                    &&& (inputs@[a] matches Input::Streams { id, path, .. } && id
                        == video_indexes@[a] && path@ == filename@)
                    &&& crate::order::spec_input_streams(inputs@[a])[0].index == video_indexes@[a]
                    &&& outputs@[a].kind == Some(OutputKind::VideoMetadata)
                    &&& outputs@[a].keys@.map_values(|s: String| s@) == seq![
                        "lavfi.scd.time"@,
                        "lavfi.scd.score"@,
                    ]
                    &&& outputs@[a].path is None
                    &&& outputs@[a].streams@.len() == 0
                    &&& outputs@[a].parameters@.len() == 0
                    &&& filters@[a].parameters@.len() == 1
                    &&& filters@[a].parameters@[0].name@ == "threshold"@
                    &&& (filters@[a].parameters@[0].value matches ParameterValue::Int64(t) && t
                        == 10)
                },
        decreases n - i,
    {
        let idx = video_indexes[i];
        let input_identifier = numbered_label("video_input_", idx);
        let output_identifier = numbered_label("video_output_", idx);

        let mut scdet_params: Vec<FilterParameter> = Vec::new();
        scdet_params.push(
            FilterParameter { name: "threshold".to_owned(), value: ParameterValue::Int64(10) },
        );

        let mut input_streams: Vec<Stream> = Vec::new();
        input_streams.push(Stream { index: idx, label: Some(input_identifier.clone()) });

        let mut filter_inputs: Vec<FilterInput> = Vec::new();
        filter_inputs.push(
            FilterInput { kind: InputKind::Stream, stream_label: input_identifier },
        );
        let mut filter_outputs: Vec<FilterOutput> = Vec::new();
        filter_outputs.push(FilterOutput { stream_label: output_identifier.clone() });

        filters.push(
            Filter {
                name: "scdet".to_owned(),
                label: Some(numbered_label("scdet_filter", idx)),
                parameters: scdet_params,
                inputs: Some(filter_inputs),
                outputs: Some(filter_outputs),
            },
        );

        inputs.push(Input::Streams { id: idx, path: filename.to_owned(), streams: input_streams });

        let mut keys: Vec<String> = Vec::new();
        keys.push("lavfi.scd.time".to_owned());
        keys.push("lavfi.scd.score".to_owned());
        proof {
            assert(keys@.map_values(|s: String| s@) =~= seq![
                "lavfi.scd.time"@,
                "lavfi.scd.score"@,
            ]);
        }
        outputs.push(
            Output {
                kind: Some(OutputKind::VideoMetadata),
                keys,
                stream: Some(output_identifier),
                path: None,
                streams: Vec::new(),
                parameters: Vec::new(),
            },
        );
        i = i + 1;
    }
    let order = Order::new(inputs, filters, outputs);
    proof {
        assert forall|a: int, b: int|
            0 <= a < order.filters@.len() && 0 <= b < crate::order::spec_filter_inputs(
                order.filters@[a],
            ).len() implies crate::order::spec_declares(
            order,
            (#[trigger] crate::order::spec_filter_inputs(order.filters@[a])[b]).stream_label@,
        ) by {
            let lab = crate::order::spec_filter_inputs(order.filters@[a])[b].stream_label@;
            assert(b == 0);
            assert(crate::order::spec_input_streams(order.inputs@[a])[0].label matches Some(l)
                && l@ == lab);
        }
        assert forall|a: int|
            0 <= a < order.outputs@.len() implies ((#[trigger] order.outputs@[a]).stream matches Some(
            l,
        ) ==> crate::order::spec_declares(order, l@)) by {
            if order.outputs@[a].stream is Some {
                let lab = order.outputs@[a].stream.unwrap()@;
                assert(crate::order::spec_filter_outputs(order.filters@[a])[0].stream_label@
                    == lab);
            }
        }
    }
    Ok(order)
}

/// Interprets the scene-cut annotation stream. Entries without a
/// resolvable stream index or a readable time annotation, and cuts
/// whose converted frame number does not fit the native domain, change
/// nothing; so does the whole pass when the discovered time base or
/// frame rate is unusable.
pub fn detect_scene(
    entries: &Vec<EntryResult>,
    streams: &mut Vec<StreamProbeResult>,
    time_base: Rational,
    frame_rate: Rational,
)
    ensures
        final(streams)@.len() == old(streams)@.len(),
        models(final(streams)@) == spec_detect_scene(
            models(old(streams)@),
            entries@,
            time_base,
            frame_rate,
        ),
{
    if !time_base.is_wf() || !frame_rate.is_wf() {
        return ;
    }
    let n = streams.len();
    let m = entries.len();
    let mut counter: u64 = 0;
    let ghost total = spec_scene_fold(
        SceneScan { streams: models(streams@), counter: 0 },
        entries@,
        time_base,
        frame_rate,
    );
    proof {
        assert(entries@.skip(0) =~= entries@);
    }
    let mut j: usize = 0;
    while j < m
        invariant
            j <= m,
            m == entries@.len(),
            streams@.len() == n,
            time_base.wf(),
            frame_rate.wf(),
            counter <= j,
            spec_scene_fold(
                SceneScan { streams: models(streams@), counter: counter as int },
                entries@.skip(j as int),
                time_base,
                frame_rate,
            ) == total,
        decreases m - j,
    {
        let ghost stv = SceneScan { streams: models(streams@), counter: counter as int };
        proof {
            assert(entries@.skip(j as int)[0] == entries@[j as int]);
            assert(entries@.skip(j as int).drop_first() =~= entries@.skip(j as int + 1));
        }
        let e = &entries[j];
        let mut accepted: Option<(usize, i64)> = None;
        match entry_stream(e, n) {
            None => {},
            Some(s) => {
                match e.get("lavfi.scd.time") {
                    None => {},
                    Some(tv) => match parse_decimal(tv.as_str()) {
                        None => {},
                        Some(td) => {
                            match scene_frame(&td, &time_base, &frame_rate) {
                                Some(frame) => {
                                    accepted = Some((s, frame));
                                },
                                None => {},
                            }
                        },
                    },
                }
            },
        }
        match accepted {
            None => {
                proof {
                    assert(spec_scene_step(stv, entries@[j as int], time_base, frame_rate) == stv);
                }
            },
            Some((s, frame)) => {
                let mut score: i32 = 0;
                match e.get("lavfi.scd.score") {
                    None => {},
                    Some(sv) => match parse_decimal(sv.as_str()) {
                        None => {},
                        Some(sd) => {
                            score = score_i32(&sd);
                        },
                    },
                }
                proof {
                    assert(score as int == spec_scene_score(entries@[j as int]));
                }
                let ghost before = streams@;
                let elem = &mut streams[s];
                let scene_len = elem.detected_scene.len();
                if scene_len > 0 && elem.detected_scene[scene_len - 1].frame == frame - 1 {
                    // the double-cut artifact: redirected, no scene number
                    elem.detected_false_scene.push(FalseSceneResult { frame });
                } else {
                    counter = counter + 1;
                    elem.detected_scene.push(SceneResult { frame, score, scene_number: counter });
                }
                proof {
                    lemma_models_update(before, s as int, streams@[s as int]);
                    assert(streams@[s as int]@ =~= spec_scene_step(
                        stv,
                        entries@[j as int],
                        time_base,
                        frame_rate,
                    ).streams[s as int]);
                    assert(models(streams@) =~= spec_scene_step(
                        stv,
                        entries@[j as int],
                        time_base,
                        frame_rate,
                    ).streams);
                }
            },
        }
        j = j + 1;
    }
    proof {
        assert(entries@.skip(m as int) =~= Seq::<EntryResult>::empty());
    }
}

} // verus!
