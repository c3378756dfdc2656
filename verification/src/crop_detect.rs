//! Crop/black-border detection: the graph that wires one `cropdetect`
//! filter per video stream, and the interpretation of its reported crop
//! rectangles. Each qualifying frame contributes its presentation time
//! and rectangle directly; the only policy applied here is the
//! `"spot_check"` cap bounding how many distinct observations a stream
//! retains.

use vstd::prelude::*;

use crate::check::{spec_param, CheckParameterMap};
use crate::decimal::{parse_decimal, spec_parse_dec};
use crate::deep::{lemma_models_update, models, CropResult, StreamProbeModel, StreamProbeResult};
use crate::entry::{entry_stream, spec_entry_stream, spec_lookup, EntryResult};
use crate::order::{create_metadata_graph, graph_element_shape, order_valid, Order, OutputKind};
use crate::rational::Rational;

verus! {

/// Builds the crop-detection graph: one `cropdetect` filter per video
/// stream, surfacing the rectangle annotations. Always validates.
pub fn create_graph(filename: &str, video_indexes: &Vec<u32>, params: &CheckParameterMap) -> (r:
    Result<Order, String>)
    ensures
        r matches Ok(o) && {
            &&& o.inputs@.len() == video_indexes@.len()
            &&& o.filters@.len() == video_indexes@.len()
            &&& o.outputs@.len() == video_indexes@.len()
            &&& order_valid(o)
            &&& forall|a: int|
                0 <= a < video_indexes@.len() ==> graph_element_shape(
                    o,
                    a,
                    video_indexes@[a],
                    filename@,
                    "cropdetect"@,
                    "crop_filter"@,
                    "video_input_"@,
                    "video_output_"@,
                    OutputKind::VideoMetadata,
                    seq!["lavfi.cropdetect.pts"@, "lavfi.cropdetect.w"@, "lavfi.cropdetect.h"@],
                )
        },
{
    let mut keys: Vec<String> = Vec::new();
    keys.push("lavfi.cropdetect.pts".to_owned());
    keys.push("lavfi.cropdetect.w".to_owned());
    keys.push("lavfi.cropdetect.h".to_owned());
    proof {
        assert(keys@.map_values(|s: String| s@) =~= seq![
            "lavfi.cropdetect.pts"@,
            "lavfi.cropdetect.w"@,
            "lavfi.cropdetect.h"@,
        ]);
    }
    create_metadata_graph(
        filename,
        video_indexes,
        "cropdetect",
        "crop_filter",
        "video_input_",
        "video_output_",
        OutputKind::VideoMetadata,
        &keys,
    )
}

/// The `"spot_check"` knob's `max`: how many crop observations a stream
/// may retain; absent means unbounded.
pub open spec fn spec_spot_check(params: Seq<crate::check::NamedParameterModel>) -> Option<u64> {
    match spec_param(params, "spot_check"@) {
        Some(v) => v.max,
        None => None,
    }
}

/// An annotation read as a whole number of at most `limit`.
pub open spec fn spec_whole(e: EntryResult, key: Seq<char>, limit: int) -> Option<int> {
    match spec_lookup(e@, key) {
        None => None,
        Some(v) => match spec_parse_dec(v) {
            Some(d) => if d.scale == 0 && d.mantissa <= limit {
                Some(d.mantissa as int)
            } else {
                None
            },
            None => None,
        },
    }
}

fn whole_of(e: &EntryResult, key: &str, limit: u64) -> (r: Option<u64>)
    ensures
        match r {
            Some(w) => spec_whole(*e, key@, limit as int) == Some(w as int) && w <= limit,
            None => spec_whole(*e, key@, limit as int) is None,
        },
{
    match e.get(key) {
        None => None,
        Some(v) => match parse_decimal(v.as_str()) {
            Some(d) => {
                if d.scale == 0 && d.mantissa <= limit {
                    Some(d.mantissa)
                } else {
                    None
                }
            },
            None => None,
        },
    }
}

/// The rectangle an entry reports, when whole and in range: pts fits the
/// tick domain, width and height the pixel domain. The aspect ratio is
/// the raw width-over-height pair.
pub open spec fn spec_crop_of(e: EntryResult) -> Option<CropResult> {
    match spec_whole(e, "lavfi.cropdetect.pts"@, i64::MAX as int) {
        None => None,
        Some(pts) => match spec_whole(e, "lavfi.cropdetect.w"@, i32::MAX as int) {
            None => None,
            Some(w) => match spec_whole(e, "lavfi.cropdetect.h"@, i32::MAX as int) {
                None => None,
                Some(h) => Some(
                    CropResult {
                        pts: pts as i64,
                        width: w as i32,
                        height: h as i32,
                        aspect_ratio: Rational { num: w as i64, den: h as i64 },
                    },
                ),
            },
        },
    }
}

/// One entry folded in: a readable rectangle is appended to its stream
/// unless the stream already holds `cap` observations.
pub open spec fn spec_crop_step(
    ss: Seq<StreamProbeModel>,
    e: EntryResult,
    cap: Option<u64>,
) -> Seq<StreamProbeModel> {
    match spec_entry_stream(e, ss.len() as int) {
        None => ss,
        Some(s) => match spec_crop_of(e) {
            None => ss,
            Some(c) => {
                let cur = ss[s];
                let full = match cap {
                    Some(m) => cur.detected_crop.len() >= m,
                    None => false,
                };
                if full {
                    ss
                } else {
                    ss.update(
                        s,
                        StreamProbeModel { detected_crop: cur.detected_crop.push(c), ..cur },
                    )
                }
            },
        },
    }
}

pub open spec fn spec_detect_crop(
    ss: Seq<StreamProbeModel>,
    entries: Seq<EntryResult>,
    cap: Option<u64>,
) -> Seq<StreamProbeModel>
    decreases entries.len(),
{
    if entries.len() == 0 {
        ss
    } else {
        spec_detect_crop(spec_crop_step(ss, entries[0], cap), entries.drop_first(), cap)
    }
}

/// Interprets the crop annotation stream, in arrival order, retaining at
/// most `spot_check.max` observations per stream.
pub fn detect_black_borders(
    entries: &Vec<EntryResult>,
    streams: &mut Vec<StreamProbeResult>,
    params: &CheckParameterMap,
)
    ensures
        final(streams)@.len() == old(streams)@.len(),
        models(final(streams)@) == spec_detect_crop(
            models(old(streams)@),
            entries@,
            spec_spot_check(params@),
        ),
{
    let cap = match params.get("spot_check") {
        Some(v) => v.max,
        None => None,
    };
    let n = streams.len();
    let m = entries.len();
    let ghost total = spec_detect_crop(models(streams@), entries@, cap);
    proof {
        assert(entries@.skip(0) =~= entries@);
    }
    let mut j: usize = 0;
    while j < m
        invariant
            j <= m,
            m == entries@.len(),
            streams@.len() == n,
            spec_detect_crop(models(streams@), entries@.skip(j as int), cap) == total,
        decreases m - j,
    {
        let ghost pre = models(streams@);
        proof {
            assert(entries@.skip(j as int)[0] == entries@[j as int]);
            assert(entries@.skip(j as int).drop_first() =~= entries@.skip(j as int + 1));
        }
        let e = &entries[j];
        match entry_stream(e, n) {
            None => {
                proof {
                    assert(spec_crop_step(pre, entries@[j as int], cap) == pre);
                }
            },
            Some(s) => {
                let pts = whole_of(e, "lavfi.cropdetect.pts", i64::MAX as u64);
                let w = whole_of(e, "lavfi.cropdetect.w", i32::MAX as u64);
                let h = whole_of(e, "lavfi.cropdetect.h", i32::MAX as u64);
                if let (Some(pts), Some(w), Some(h)) = (pts, w, h) {
                    let full = match cap {
                        Some(c) => streams[s].detected_crop.len() as u64 >= c,
                        None => false,
                    };
                    if !full {
                        let ghost before = streams@;
                        let crop = CropResult {
                            pts: pts as i64,
                            width: w as i32,
                            height: h as i32,
                            aspect_ratio: Rational { num: w as i64, den: h as i64 },
                        };
                        let elem = &mut streams[s];
                        elem.detected_crop.push(crop);
                        proof {
                            lemma_models_update(before, s as int, streams@[s as int]);
                            assert(models(streams@) =~= spec_crop_step(
                                pre,
                                entries@[j as int],
                                cap,
                            ));
                        }
                    }
                } else {
                    proof {
                        assert(spec_crop_step(pre, entries@[j as int], cap) == pre);
                    }
                }
            },
        }
        j = j + 1;
    }
    proof {
        assert(entries@.skip(m as int) =~= Seq::<EntryResult>::empty());
    }
}

} // verus!
