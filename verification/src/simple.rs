//! The lightweight probe: format-level and per-stream facts only, no
//! frame iteration and no detector. Unlike the deep probe, a file that
//! cannot be opened is a real error here.

use vstd::prelude::*;

use crate::deep::{MediaInfo, StreamKind};
use crate::rational::Rational;

verus! {

/// The format-level and per-stream facts a lightweight probe reports.
pub struct StreamSummary {
    pub stream_index: usize,
    pub kind: StreamKind,
    pub time_base: Rational,
    pub frame_rate: Rational,
    pub bit_rate: Option<i64>,
}

pub struct ProbeResult {
    pub streams: Vec<StreamSummary>,
    pub format_bit_rate: Option<i64>,
}

/// A lightweight probe of one file.
pub struct Probe {
    pub filename: String,
    pub result: Option<ProbeResult>,
}

/// What one stream contributes to the summary.
pub open spec fn spec_stream_summary(info: MediaInfo, i: int) -> (StreamKind, Rational, Rational, Option<i64>) {
    let si = info.streams@[i];
    (si.kind, si.time_base, si.frame_rate, si.bit_rate)
}

impl Probe {
    pub fn new(filename: &str) -> (r: Probe)
        ensures
            r.result is None,
            r.filename@ == filename@,
    {
        Probe { filename: filename.to_owned(), result: None }
    }

    /// Reads the format-level facts off an opened container. A file that
    /// could not be opened arrives as `None` and is an error: the
    /// lightweight probe, unlike the deep one, propagates it.
    pub fn process(&mut self, opened: Option<MediaInfo>) -> (r: Result<(), String>)
        ensures
            final(self).filename == old(self).filename,
            r is Ok <==> opened is Some,
            opened is None ==> final(self).result is None,
            opened matches Some(info) ==> (final(self).result matches Some(p) && {
                &&& p.format_bit_rate == info.format_bit_rate
                &&& p.streams@.len() == info.streams@.len()
                &&& forall|i: int|
                    0 <= i < info.streams@.len() ==> {
                        let s = #[trigger] p.streams@[i];
                        &&& s.stream_index == i
                        &&& (s.kind, s.time_base, s.frame_rate, s.bit_rate)
                            == spec_stream_summary(info, i)
                    }
            }),
    {
        match opened {
            None => {
                self.result = None;
                Err("could not open the container".to_owned())
            },
            Some(info) => {
                let n = info.streams.len();
                let mut streams: Vec<StreamSummary> = Vec::new();
                let mut i: usize = 0;
                while i < n
                    invariant
                        i <= n,
                        n == info.streams@.len(),
                        streams@.len() == i,
                        forall|k: int|
                            0 <= k < i ==> {
                                let s = #[trigger] streams@[k];
                                &&& s.stream_index == k
                                &&& (s.kind, s.time_base, s.frame_rate, s.bit_rate)
                                    == spec_stream_summary(info, k)
                            },
                    decreases n - i,
                {
                    let si = &info.streams[i];
                    streams.push(
                        StreamSummary {
                            stream_index: i,
                            kind: si.kind,
                            time_base: si.time_base,
                            frame_rate: si.frame_rate,
                            bit_rate: si.bit_rate,
                        },
                    );
                    i = i + 1;
                }
                self.result = Some(
                    ProbeResult { streams, format_bit_rate: info.format_bit_rate },
                );
                Ok(())
            },
        }
    }
}

} // verus!
