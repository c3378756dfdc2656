//! OCR/text-loss detection: the graph that wires one `ocr` filter per
//! video stream, and the interpretation of its recognized-text spans.
//! The `"threshold"` knob's `th` is the acceptance bar: a span whose
//! confidence falls below it is not recorded.

use vstd::prelude::*;

use crate::check::{spec_param, CheckParameterMap};
use crate::decimal::{dec_ge, parse_decimal, spec_dec_ge, spec_parse_dec, Decimal};
use crate::deep::{lemma_models_update, models, OcrResult, StreamProbeModel, StreamProbeResult};
use crate::entry::{entry_stream, spec_entry_stream, spec_lookup, EntryResult};
use crate::order::{create_metadata_graph, graph_element_shape, order_valid, Order, OutputKind};

verus! {

/// Builds the OCR graph: one `ocr` filter per video stream, surfacing
/// the recognized-text annotations. Always validates.
pub fn create_graph(filename: &str, video_indexes: &Vec<u32>, params: &CheckParameterMap) -> (r:
    Result<Order, String>)
    ensures
        r matches Ok(o) && {
            &&& o.inputs@.len() == video_indexes@.len()
            &&& o.filters@.len() == video_indexes@.len()
            &&& o.outputs@.len() == video_indexes@.len()
            &&& order_valid(o)
            &&& forall|a: int|
                0 <= a < video_indexes@.len() ==> graph_element_shape(
                    o,
                    a,
                    video_indexes@[a],
                    filename@,
                    "ocr"@,
                    "ocr_filter"@,
                    "video_input_"@,
                    "video_output_"@,
                    OutputKind::VideoMetadata,
                    seq![
                        "lavfi.ocr.text"@,
                        "lavfi.ocr.confidence"@,
                        "lavfi.ocr.word_confidence"@,
                        "lavfi.ocr.frame_start"@,
                        "lavfi.ocr.frame_end"@,
                    ],
                )
        },
{
    let mut keys: Vec<String> = Vec::new();
    keys.push("lavfi.ocr.text".to_owned());
    keys.push("lavfi.ocr.confidence".to_owned());
    keys.push("lavfi.ocr.word_confidence".to_owned());
    keys.push("lavfi.ocr.frame_start".to_owned());
    keys.push("lavfi.ocr.frame_end".to_owned());
    proof {
        assert(keys@.map_values(|s: String| s@) =~= seq![
            "lavfi.ocr.text"@,
            "lavfi.ocr.confidence"@,
            "lavfi.ocr.word_confidence"@,
            "lavfi.ocr.frame_start"@,
            "lavfi.ocr.frame_end"@,
        ]);
    }
    create_metadata_graph(
        filename,
        video_indexes,
        "ocr",
        "ocr_filter",
        "video_input_",
        "video_output_",
        OutputKind::VideoMetadata,
        &keys,
    )
}

/// The `"threshold"` knob's `th`: the confidence acceptance bar; absent
/// means every recognized span is kept.
pub open spec fn spec_ocr_threshold(params: Seq<crate::check::NamedParameterModel>) -> Option<
    Decimal,
> {
    match spec_param(params, "threshold"@) {
        Some(v) => v.th,
        None => None,
    }
}

/// An annotation read as a whole number.
pub open spec fn spec_frame_of(e: EntryResult, key: Seq<char>) -> Option<int> {
    match spec_lookup(e@, key) {
        None => None,
        Some(v) => match spec_parse_dec(v) {
            Some(d) => if d.scale == 0 {
                Some(d.mantissa as int)
            } else {
                None
            },
            None => None,
        },
    }
}

/// Whether the span's confidence passes the bar: with a threshold
/// present, the confidence annotation must parse and reach it.
pub open spec fn spec_confidence_ok(e: EntryResult, th: Option<Decimal>) -> bool {
    match th {
        None => true,
        Some(t) => match spec_lookup(e@, "lavfi.ocr.confidence"@) {
            None => false,
            Some(v) => match spec_parse_dec(v) {
                None => false,
                Some(c) => spec_dec_ge(c, t),
            },
        },
    }
}

/// The recorded span of an accepted entry: its frame range, raw text and
/// per-word confidence string (empty when absent).
pub open spec fn spec_ocr_of(e: EntryResult) -> Option<crate::deep::OcrResultModel> {
    match spec_lookup(e@, "lavfi.ocr.text"@) {
        None => None,
        Some(text) => match spec_frame_of(e, "lavfi.ocr.frame_start"@) {
            None => None,
            Some(fs) => match spec_frame_of(e, "lavfi.ocr.frame_end"@) {
                None => None,
                Some(fe) => Some(
                    crate::deep::OcrResultModel {
                        frame_start: fs as u64,
                        frame_end: fe as u64,
                        text,
                        word_confidence: match spec_lookup(e@, "lavfi.ocr.word_confidence"@) {
                            Some(w) => w,
                            None => Seq::empty(),
                        },
                    },
                ),
            },
        },
    }
}

/// One entry folded in: a readable span whose confidence passes the bar
/// is appended to its stream.
pub open spec fn spec_ocr_step(
    ss: Seq<StreamProbeModel>,
    e: EntryResult,
    th: Option<Decimal>,
) -> Seq<StreamProbeModel> {
    match spec_entry_stream(e, ss.len() as int) {
        None => ss,
        Some(s) => {
            if spec_confidence_ok(e, th) {
                match spec_ocr_of(e) {
                    None => ss,
                    Some(o) => {
                        let cur = ss[s];
                        ss.update(
                            s,
                            StreamProbeModel { detected_ocr: cur.detected_ocr.push(o), ..cur },
                        )
                    },
                }
            } else {
                ss
            }
        },
    }
}

pub open spec fn spec_detect_ocr(
    ss: Seq<StreamProbeModel>,
    entries: Seq<EntryResult>,
    th: Option<Decimal>,
) -> Seq<StreamProbeModel>
    decreases entries.len(),
{
    if entries.len() == 0 {
        ss
    } else {
        spec_detect_ocr(spec_ocr_step(ss, entries[0], th), entries.drop_first(), th)
    }
}

/// Interprets the OCR annotation stream, in arrival order, recording
/// only spans whose confidence reaches the threshold.
pub fn detect_ocr(
    entries: &Vec<EntryResult>,
    streams: &mut Vec<StreamProbeResult>,
    params: &CheckParameterMap,
)
    requires
        params.wf(),
    ensures
        final(streams)@.len() == old(streams)@.len(),
        models(final(streams)@) == spec_detect_ocr(
            models(old(streams)@),
            entries@,
            spec_ocr_threshold(params@),
        ),
{
    let th = match params.get("threshold") {
        Some(v) => v.th,
        None => None,
    };
    proof {
        lemma_param_wf(params@, "threshold"@);
    }
    let n = streams.len();
    let m = entries.len();
    let ghost total = spec_detect_ocr(models(streams@), entries@, th);
    proof {
        assert(entries@.skip(0) =~= entries@);
    }
    let mut j: usize = 0;
    while j < m
        invariant
            j <= m,
            m == entries@.len(),
            streams@.len() == n,
            th matches Some(t) ==> t.wf(),
            th == spec_ocr_threshold(params@),
            spec_detect_ocr(models(streams@), entries@.skip(j as int), th) == total,
        decreases m - j,
    {
        let ghost pre = models(streams@);
        proof {
            assert(entries@.skip(j as int)[0] == entries@[j as int]);
            assert(entries@.skip(j as int).drop_first() =~= entries@.skip(j as int + 1));
        }
        let e = &entries[j];
        match entry_stream(e, n) {
            None => {
                proof {
                    assert(spec_ocr_step(pre, entries@[j as int], th) == pre);
                }
            },
            Some(s) => {
                let conf_ok: bool = match &th {
                    None => true,
                    Some(t) => match e.get("lavfi.ocr.confidence") {
                        None => false,
                        Some(v) => match parse_decimal(v.as_str()) {
                            None => false,
                            Some(c) => dec_ge(&c, t),
                        },
                    },
                };
                let mut accepted: Option<OcrResult> = None;
                if conf_ok {
                    match e.get("lavfi.ocr.text") {
                        None => {},
                        Some(text) => {
                            let fs = frame_of(e, "lavfi.ocr.frame_start");
                            let fe = frame_of(e, "lavfi.ocr.frame_end");
                            if let (Some(fs), Some(fe)) = (fs, fe) {
                                let wc: String = match e.get("lavfi.ocr.word_confidence") {
                                    Some(w) => w.clone(),
                                    None => String::new(),
                                };
                                accepted = Some(
                                    OcrResult {
                                        frame_start: fs,
                                        frame_end: fe,
                                        text: text.clone(),
                                        word_confidence: wc,
                                    },
                                );
                            }
                        },
                    }
                }
                match accepted {
                    Some(o) => {
                        let ghost before = streams@;
                        let elem = &mut streams[s];
                        elem.detected_ocr.push(o);
                        proof {
                            lemma_models_update(before, s as int, streams@[s as int]);
                            assert(streams@[s as int]@.detected_ocr =~= pre[s as int].detected_ocr.push(
                                spec_ocr_of(entries@[j as int]).unwrap(),
                            ));
                            assert(models(streams@) =~= spec_ocr_step(pre, entries@[j as int], th));
                        }
                    },
                    None => {
                        proof {
                            assert(spec_ocr_step(pre, entries@[j as int], th) == pre);
                        }
                    },
                }
            },
        }
        j = j + 1;
    }
    proof {
        assert(entries@.skip(m as int) =~= Seq::<EntryResult>::empty());
    }
}

proof fn lemma_param_wf(entries: Seq<crate::check::NamedParameterModel>, name: Seq<char>)
    requires
        forall|k: int|
            0 <= k < entries.len() ==> (#[trigger] entries[k].value).wf(),
    ensures
        spec_param(entries, name) matches Some(v) ==> v.wf(),
    decreases entries.len(),
{
    if entries.len() > 0 && entries[0].name != name {
        lemma_param_wf(entries.drop_first(), name);
    }
}

fn frame_of(e: &EntryResult, key: &str) -> (r: Option<u64>)
    ensures
        match r {
            Some(w) => spec_frame_of(*e, key@) == Some(w as int),
            None => spec_frame_of(*e, key@) is None,
        },
{
    match e.get(key) {
        None => None,
        Some(v) => match parse_decimal(v.as_str()) {
            Some(d) => {
                if d.scale == 0 {
                    Some(d.mantissa)
                } else {
                    None
                }
            },
            None => None,
        },
    }
}

} // verus!
