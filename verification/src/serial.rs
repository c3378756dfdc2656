//! The report's wire form. The serialized report omits what is empty or
//! absent: every detector list is dropped when empty, every optional
//! when `None`; reading the omission form back fills empty lists in.
//! This module owns those omission rules and proves they round-trip;
//! turning the wire form into bytes is left to an ordinary serializer
//! outside the library.

use vstd::prelude::*;

use crate::deep::{
    opt_str_view, BlackAndSilenceResult, BlackResult, CropResult, FalseSceneResult, OcrResult,
    OcrResultModel, SceneResult, SilenceResult, StreamProbeModel, StreamProbeResult,
};

verus! {

/// A stream record as serialized: a list field is present exactly when
/// it is non-empty.
pub struct StreamProbeSerial {
    pub stream_index: usize,
    pub count_packets: usize,
    pub min_packet_size: i32,
    pub max_packet_size: i32,
    pub color_space: Option<String>,
    pub color_range: Option<String>,
    pub color_primaries: Option<String>,
    pub color_trc: Option<String>,
    pub color_matrix: Option<String>,
    pub detected_silence: Option<Vec<SilenceResult>>,
    pub silent_stream: Option<bool>,
    pub detected_black: Option<Vec<BlackResult>>,
    pub detected_crop: Option<Vec<CropResult>>,
    pub detected_ocr: Option<Vec<OcrResult>>,
    pub detected_bitrate: Option<i64>,
    pub black_and_silence: Option<Vec<BlackAndSilenceResult>>,
    pub detected_scene: Option<Vec<SceneResult>>,
    pub detected_false_scene: Option<Vec<FalseSceneResult>>,
}

/// The mathematical shadow of a serialized stream record.
#[verifier::ext_equal]
pub ghost struct StreamSerialModel {
    pub stream_index: int,
    pub count_packets: int,
    pub min_packet_size: int,
    pub max_packet_size: int,
    pub color_space: Option<Seq<char>>,
    pub color_range: Option<Seq<char>>,
    pub color_primaries: Option<Seq<char>>,
    pub color_trc: Option<Seq<char>>,
    pub color_matrix: Option<Seq<char>>,
    pub detected_silence: Option<Seq<SilenceResult>>,
    pub silent_stream: Option<bool>,
    pub detected_black: Option<Seq<BlackResult>>,
    pub detected_crop: Option<Seq<CropResult>>,
    pub detected_ocr: Option<Seq<OcrResultModel>>,
    pub detected_bitrate: Option<i64>,
    pub black_and_silence: Option<Seq<BlackAndSilenceResult>>,
    pub detected_scene: Option<Seq<SceneResult>>,
    pub detected_false_scene: Option<Seq<FalseSceneResult>>,
}

pub open spec fn opt_seq<T>(s: Seq<T>) -> Option<Seq<T>> {
    if s.len() == 0 {
        None
    } else {
        Some(s)
    }
}

pub open spec fn seq_or_empty<T>(o: Option<Seq<T>>) -> Seq<T> {
    match o {
        Some(s) => s,
        None => Seq::empty(),
    }
}

impl View for StreamProbeSerial {
    type V = StreamSerialModel;

    open spec fn view(&self) -> StreamSerialModel {
        StreamSerialModel {
            stream_index: self.stream_index as int,
            count_packets: self.count_packets as int,
            min_packet_size: self.min_packet_size as int,
            max_packet_size: self.max_packet_size as int,
            color_space: opt_str_view(self.color_space),
            color_range: opt_str_view(self.color_range),
            color_primaries: opt_str_view(self.color_primaries),
            color_trc: opt_str_view(self.color_trc),
            color_matrix: opt_str_view(self.color_matrix),
            detected_silence: match self.detected_silence {
                Some(v) => Some(v@),
                None => None,
            },
            silent_stream: self.silent_stream,
            detected_black: match self.detected_black {
                Some(v) => Some(v@),
                None => None,
            },
            detected_crop: match self.detected_crop {
                Some(v) => Some(v@),
                None => None,
            },
            detected_ocr: match self.detected_ocr {
                Some(v) => Some(v@.map_values(|o: OcrResult| o@)),
                None => None,
            },
            detected_bitrate: self.detected_bitrate,
            black_and_silence: match self.black_and_silence {
                Some(v) => Some(v@),
                None => None,
            },
            detected_scene: match self.detected_scene {
                Some(v) => Some(v@),
                None => None,
            },
            detected_false_scene: match self.detected_false_scene {
                Some(v) => Some(v@),
                None => None,
            },
        }
    }
}

/// The omission rules: every list is dropped exactly when empty.
pub open spec fn spec_to_serial(m: StreamProbeModel) -> StreamSerialModel {
    StreamSerialModel {
        stream_index: m.stream_index,
        count_packets: m.count_packets,
        min_packet_size: m.min_packet_size,
        max_packet_size: m.max_packet_size,
        color_space: m.color_space,
        color_range: m.color_range,
        color_primaries: m.color_primaries,
        color_trc: m.color_trc,
        color_matrix: m.color_matrix,
        detected_silence: opt_seq(m.detected_silence),
        silent_stream: m.silent_stream,
        detected_black: opt_seq(m.detected_black),
        detected_crop: opt_seq(m.detected_crop),
        detected_ocr: opt_seq(m.detected_ocr),
        detected_bitrate: m.detected_bitrate,
        black_and_silence: opt_seq(m.black_and_silence),
        detected_scene: opt_seq(m.detected_scene),
        detected_false_scene: opt_seq(m.detected_false_scene),
    }
}

/// Reading the wire form back: an omitted list is an empty list, not an
/// error.
pub open spec fn spec_from_serial(d: StreamSerialModel) -> StreamProbeModel {
    StreamProbeModel {
        stream_index: d.stream_index,
        count_packets: d.count_packets,
        min_packet_size: d.min_packet_size,
        max_packet_size: d.max_packet_size,
        color_space: d.color_space,
        color_range: d.color_range,
        color_primaries: d.color_primaries,
        color_trc: d.color_trc,
        color_matrix: d.color_matrix,
        detected_silence: seq_or_empty(d.detected_silence),
        silent_stream: d.silent_stream,
        detected_black: seq_or_empty(d.detected_black),
        detected_crop: seq_or_empty(d.detected_crop),
        detected_ocr: seq_or_empty(d.detected_ocr),
        detected_bitrate: d.detected_bitrate,
        black_and_silence: seq_or_empty(d.black_and_silence),
        detected_scene: seq_or_empty(d.detected_scene),
        detected_false_scene: seq_or_empty(d.detected_false_scene),
    }
}

/// Serialization round-trips: writing a stream record with the omission
/// rules and reading it back yields the record unchanged.
pub proof fn lemma_serial_round_trip(m: StreamProbeModel)
    ensures
        spec_from_serial(spec_to_serial(m)) == m,
{
    assert(spec_from_serial(spec_to_serial(m)) =~= m);
}

/// The omission rules omit exactly the empty lists, and reading an
/// omitted list back yields an empty list, never an error.
pub proof fn lemma_serial_omission(m: StreamProbeModel, d: StreamSerialModel)
    ensures
        spec_to_serial(m).detected_silence is None <==> m.detected_silence.len() == 0,
        spec_to_serial(m).detected_black is None <==> m.detected_black.len() == 0,
        spec_to_serial(m).detected_crop is None <==> m.detected_crop.len() == 0,
        spec_to_serial(m).detected_ocr is None <==> m.detected_ocr.len() == 0,
        spec_to_serial(m).black_and_silence is None <==> m.black_and_silence.len() == 0,
        spec_to_serial(m).detected_scene is None <==> m.detected_scene.len() == 0,
        spec_to_serial(m).detected_false_scene is None <==> m.detected_false_scene.len() == 0,
        d.detected_silence is None ==> spec_from_serial(d).detected_silence
            == Seq::<SilenceResult>::empty(),
        d.detected_black is None ==> spec_from_serial(d).detected_black
            == Seq::<BlackResult>::empty(),
        d.black_and_silence is None ==> spec_from_serial(d).black_and_silence
            == Seq::<BlackAndSilenceResult>::empty(),
{
}

fn copy_silence(v: &Vec<SilenceResult>) -> (r: Vec<SilenceResult>)
    ensures
        r@ == v@,
{
    let n = v.len();
    let mut r: Vec<SilenceResult> = Vec::new();
    let mut i: usize = 0;
    while i < n
        invariant
            i <= n,
            n == v@.len(),
            r@ =~= v@.subrange(0, i as int),
        decreases n - i,
    {
        r.push(v[i]);
        proof {
            assert(r@ =~= v@.subrange(0, i as int + 1));
        }
        i = i + 1;
    }
    proof {
        assert(v@.subrange(0, n as int) =~= v@);
    }
    r
}

fn copy_black(v: &Vec<BlackResult>) -> (r: Vec<BlackResult>)
    ensures
        r@ == v@,
{
    let n = v.len();
    let mut r: Vec<BlackResult> = Vec::new();
    let mut i: usize = 0;
    while i < n
        invariant
            i <= n,
            n == v@.len(),
            r@ =~= v@.subrange(0, i as int),
        decreases n - i,
    {
        r.push(v[i]);
        proof {
            assert(r@ =~= v@.subrange(0, i as int + 1));
        }
        i = i + 1;
    }
    proof {
        assert(v@.subrange(0, n as int) =~= v@);
    }
    r
}

/// Writes one stream record into its wire form.
pub fn to_serial(s: &StreamProbeResult) -> (r: StreamProbeSerial)
    ensures
        r@ == spec_to_serial(s@),
{
    let r = StreamProbeSerial {
        stream_index: s.stream_index,
        count_packets: s.count_packets,
        min_packet_size: s.min_packet_size,
        max_packet_size: s.max_packet_size,
        color_space: clone_opt(&s.color_space),
        color_range: clone_opt(&s.color_range),
        color_primaries: clone_opt(&s.color_primaries),
        color_trc: clone_opt(&s.color_trc),
        color_matrix: clone_opt(&s.color_matrix),
        detected_silence: if s.detected_silence.len() == 0 {
            None
        } else {
            Some(copy_silence(&s.detected_silence))
        },
        silent_stream: s.silent_stream,
        detected_black: if s.detected_black.len() == 0 {
            None
        } else {
            Some(copy_black(&s.detected_black))
        },
        detected_crop: if s.detected_crop.len() == 0 {
            None
        } else {
            Some(copy_crop(&s.detected_crop))
        },
        detected_ocr: if s.detected_ocr.len() == 0 {
            None
        } else {
            Some(clone_ocr(&s.detected_ocr))
        },
        detected_bitrate: s.detected_bitrate,
        black_and_silence: if s.black_and_silence.len() == 0 {
            None
        } else {
            Some(copy_bas(&s.black_and_silence))
        },
        detected_scene: if s.detected_scene.len() == 0 {
            None
        } else {
            Some(copy_scene(&s.detected_scene))
        },
        detected_false_scene: if s.detected_false_scene.len() == 0 {
            None
        } else {
            Some(copy_false_scene(&s.detected_false_scene))
        },
    };
    proof {
        assert(r@ =~= spec_to_serial(s@));
    }
    r
}

/// Reads one stream record back from its wire form, filling omitted
/// lists with empty ones.
pub fn from_serial(d: StreamProbeSerial) -> (r: StreamProbeResult)
    ensures
        r@ == spec_from_serial(d@),
{
    let r = StreamProbeResult {
        stream_index: d.stream_index,
        count_packets: d.count_packets,
        min_packet_size: d.min_packet_size,
        max_packet_size: d.max_packet_size,
        color_space: d.color_space,
        color_range: d.color_range,
        color_primaries: d.color_primaries,
        color_trc: d.color_trc,
        color_matrix: d.color_matrix,
        detected_silence: match d.detected_silence {
            Some(v) => v,
            None => Vec::new(),
        },
        silent_stream: d.silent_stream,
        detected_black: match d.detected_black {
            Some(v) => v,
            None => Vec::new(),
        },
        detected_crop: match d.detected_crop {
            Some(v) => v,
            None => Vec::new(),
        },
        detected_ocr: match d.detected_ocr {
            Some(v) => v,
            None => Vec::new(),
        },
        detected_bitrate: d.detected_bitrate,
        black_and_silence: match d.black_and_silence {
            Some(v) => v,
            None => Vec::new(),
        },
        detected_scene: match d.detected_scene {
            Some(v) => v,
            None => Vec::new(),
        },
        detected_false_scene: match d.detected_false_scene {
            Some(v) => v,
            None => Vec::new(),
        },
    };
    proof {
        assert(r@ =~= spec_from_serial(d@));
    }
    r
}

fn clone_opt(o: &Option<String>) -> (r: Option<String>)
    ensures
        opt_str_view(r) == opt_str_view(*o),
{
    match o {
        Some(s) => Some(s.clone()),
        None => None,
    }
}

fn copy_crop(v: &Vec<CropResult>) -> (r: Vec<CropResult>)
    ensures
        r@ == v@,
{
    let n = v.len();
    let mut r: Vec<CropResult> = Vec::new();
    let mut i: usize = 0;
    while i < n
        invariant
            i <= n,
            n == v@.len(),
            r@ =~= v@.subrange(0, i as int),
        decreases n - i,
    {
        r.push(v[i]);
        proof {
            assert(r@ =~= v@.subrange(0, i as int + 1));
        }
        i = i + 1;
    }
    proof {
        assert(v@.subrange(0, n as int) =~= v@);
    }
    r
}

fn copy_bas(v: &Vec<BlackAndSilenceResult>) -> (r: Vec<BlackAndSilenceResult>)
    ensures
        r@ == v@,
{
    let n = v.len();
    let mut r: Vec<BlackAndSilenceResult> = Vec::new();
    let mut i: usize = 0;
    while i < n
        invariant
            i <= n,
            n == v@.len(),
            r@ =~= v@.subrange(0, i as int),
        decreases n - i,
    {
        r.push(v[i]);
        proof {
            assert(r@ =~= v@.subrange(0, i as int + 1));
        }
        i = i + 1;
    }
    proof {
        assert(v@.subrange(0, n as int) =~= v@);
    }
    r
}

fn copy_scene(v: &Vec<SceneResult>) -> (r: Vec<SceneResult>)
    ensures
        r@ == v@,
{
    let n = v.len();
    let mut r: Vec<SceneResult> = Vec::new();
    let mut i: usize = 0;
    while i < n
        invariant
            i <= n,
            n == v@.len(),
            r@ =~= v@.subrange(0, i as int),
        decreases n - i,
    {
        r.push(v[i]);
        proof {
            assert(r@ =~= v@.subrange(0, i as int + 1));
        }
        i = i + 1;
    }
    proof {
        assert(v@.subrange(0, n as int) =~= v@);
    }
    r
}

fn copy_false_scene(v: &Vec<FalseSceneResult>) -> (r: Vec<FalseSceneResult>)
    ensures
        r@ == v@,
{
    let n = v.len();
    let mut r: Vec<FalseSceneResult> = Vec::new();
    let mut i: usize = 0;
    while i < n
        invariant
            i <= n,
            n == v@.len(),
            r@ =~= v@.subrange(0, i as int),
        decreases n - i,
    {
        r.push(v[i]);
        proof {
            assert(r@ =~= v@.subrange(0, i as int + 1));
        }
        i = i + 1;
    }
    proof {
        assert(v@.subrange(0, n as int) =~= v@);
    }
    r
}

fn clone_ocr(v: &Vec<OcrResult>) -> (r: Vec<OcrResult>)
    ensures
        r@.map_values(|o: OcrResult| o@) == v@.map_values(|o: OcrResult| o@),
{
    let n = v.len();
    let mut r: Vec<OcrResult> = Vec::new();
    let mut i: usize = 0;
    while i < n
        invariant
            i <= n,
            n == v@.len(),
            r@.len() == i,
            forall|k: int| 0 <= k < i ==> r@[k]@ == v@[k]@,
        decreases n - i,
    {
        let o = &v[i];
        r.push(
            OcrResult {
                frame_start: o.frame_start,
                frame_end: o.frame_end,
                text: o.text.clone(),
                word_confidence: o.word_confidence.clone(),
            },
        );
        i = i + 1;
    }
    proof {
        assert(r@.map_values(|o: OcrResult| o@) =~= v@.map_values(|o: OcrResult| o@));
    }
    r
}

} // verus!
