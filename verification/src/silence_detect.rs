//! Silence detection: the graph that wires one `silencedetect` filter
//! per audio stream, and the interpretation of its
//! `lavfi.silence_start` / `lavfi.silence_duration` annotations into
//! duration-bounded silence intervals.

use vstd::prelude::*;

use crate::check::{spec_duration_bounds, CheckParameterMap};
use crate::deep::{models, StreamProbeResult};
use crate::entry::EntryResult;
use crate::interval::{detect_intervals, spec_detect_intervals, IntervalKind};
use crate::order::{create_metadata_graph, graph_element_shape, order_valid, Order, OutputKind};
use crate::rational::Rational;

verus! {

/// Builds the silence-detection graph: one `silencedetect` filter per
/// audio stream, surfacing the silence annotations. Always validates.
pub fn create_graph(filename: &str, audio_indexes: &Vec<u32>, params: &CheckParameterMap) -> (r:
    Result<Order, String>)
    ensures
        r matches Ok(o) && {
            &&& o.inputs@.len() == audio_indexes@.len()
            &&& o.filters@.len() == audio_indexes@.len()
            &&& o.outputs@.len() == audio_indexes@.len()
            &&& order_valid(o)
            &&& forall|a: int|
                0 <= a < audio_indexes@.len() ==> graph_element_shape(
                    o,
                    a,
                    audio_indexes@[a],
                    filename@,
                    "silencedetect"@,
                    "silence_filter"@,
                    "audio_input_"@,
                    "audio_output_"@,
                    OutputKind::AudioMetadata,
                    seq!["lavfi.silence_start"@, "lavfi.silence_duration"@],
                )
        },
{
    let mut keys: Vec<String> = Vec::new();
    keys.push("lavfi.silence_start".to_owned());
    keys.push("lavfi.silence_duration".to_owned());
    proof {
        assert(keys@.map_values(|s: String| s@) =~= seq![
            "lavfi.silence_start"@,
            "lavfi.silence_duration"@,
        ]);
    }
    create_metadata_graph(
        filename,
        audio_indexes,
        "silencedetect",
        "silence_filter",
        "audio_input_",
        "audio_output_",
        OutputKind::AudioMetadata,
        &keys,
    )
}

/// Interprets the silence annotation stream: each closed interval is
/// converted to ticks through its stream's time base and appended, in
/// arrival order, when its duration passes the `"duration"` bounds.
pub fn detect_silence(
    entries: &Vec<EntryResult>,
    streams: &mut Vec<StreamProbeResult>,
    audio_indexes: &Vec<usize>,
    time_bases: &Vec<Rational>,
    params: &CheckParameterMap,
)
    requires
        time_bases@.len() == old(streams)@.len(),
    ensures
        final(streams)@.len() == old(streams)@.len(),
        models(final(streams)@) == spec_detect_intervals(
            models(old(streams)@),
            entries@,
            IntervalKind::Silence,
            audio_indexes@,
            time_bases@,
            spec_duration_bounds(params@).0,
            spec_duration_bounds(params@).1,
        ),
{
    detect_intervals(entries, streams, IntervalKind::Silence, audio_indexes, time_bases, params);
}

} // verus!
