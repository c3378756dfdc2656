//! Black-frame detection: the graph that wires one `blackdetect`
//! filter per video stream, and the interpretation of its
//! `lavfi.black_start` / `lavfi.black_duration` annotations into
//! duration-bounded black intervals.

use vstd::prelude::*;

use crate::check::{spec_duration_bounds, CheckParameterMap};
use crate::deep::{models, StreamProbeResult};
use crate::entry::EntryResult;
use crate::interval::{detect_intervals, spec_detect_intervals, IntervalKind};
use crate::order::{create_metadata_graph, graph_element_shape, order_valid, Order, OutputKind};
use crate::rational::Rational;

verus! {

/// Builds the black-detection graph: one `blackdetect` filter per
/// video stream, surfacing the black-interval annotations. Always
/// validates.
pub fn create_graph(filename: &str, video_indexes: &Vec<u32>, params: &CheckParameterMap) -> (r:
    Result<Order, String>)
    ensures
        r matches Ok(o) && {
            &&& o.inputs@.len() == video_indexes@.len()
            &&& o.filters@.len() == video_indexes@.len()
            &&& o.outputs@.len() == video_indexes@.len()
            &&& order_valid(o)
            &&& forall|a: int|
                0 <= a < video_indexes@.len() ==> graph_element_shape(
                    o,
                    a,
                    video_indexes@[a],
                    filename@,
                    "blackdetect"@,
                    "black_filter"@,
                    "video_input_"@,
                    "video_output_"@,
                    OutputKind::VideoMetadata,
                    seq!["lavfi.black_start"@, "lavfi.black_duration"@],
                )
        },
{
    let mut keys: Vec<String> = Vec::new();
    keys.push("lavfi.black_start".to_owned());
    keys.push("lavfi.black_duration".to_owned());
    proof {
        assert(keys@.map_values(|s: String| s@) =~= seq![
            "lavfi.black_start"@,
            "lavfi.black_duration"@,
        ]);
    }
    create_metadata_graph(
        filename,
        video_indexes,
        "blackdetect",
        "black_filter",
        "video_input_",
        "video_output_",
        OutputKind::VideoMetadata,
        &keys,
    )
}

/// Interprets the black-frame annotation stream: each closed interval
/// is converted to ticks through its stream's time base and appended,
/// in arrival order, when its duration passes the `"duration"` bounds.
pub fn detect_black_frames(
    entries: &Vec<EntryResult>,
    streams: &mut Vec<StreamProbeResult>,
    video_indexes: &Vec<usize>,
    time_bases: &Vec<Rational>,
    params: &CheckParameterMap,
)
    requires
        time_bases@.len() == old(streams)@.len(),
    ensures
        final(streams)@.len() == old(streams)@.len(),
        models(final(streams)@) == spec_detect_intervals(
            models(old(streams)@),
            entries@,
            IntervalKind::Black,
            video_indexes@,
            time_bases@,
            spec_duration_bounds(params@).0,
            spec_duration_bounds(params@).1,
        ),
{
    detect_intervals(entries, streams, IntervalKind::Black, video_indexes, time_bases, params);
}

} // verus!
