//! Per-stream result records of a deep probe, their mathematical
//! models, and the packet-statistics pass.

use vstd::prelude::*;

use crate::check::{spec_duration_bounds, DeepProbeCheck};
use crate::entry::EntryResult;
use crate::rational::Rational;

verus! {

/// A detected silence, in decoder ticks.
#[derive(Clone, Copy, Debug, PartialEq, Eq, Structural)]
pub struct SilenceResult {
    pub start: i64,
    pub end: i64,
}

/// A detected black interval, in decoder ticks.
#[derive(Clone, Copy, Debug, PartialEq, Eq, Structural)]
pub struct BlackResult {
    pub start: i64,
    pub end: i64,
}

/// A span that is black and silent at once, in decoder ticks.
#[derive(Clone, Copy, Debug, PartialEq, Eq, Structural)]
pub struct BlackAndSilenceResult {
    pub start: i64,
    pub end: i64,
}

/// One observed crop rectangle.
#[derive(Clone, Copy, Debug, PartialEq, Eq, Structural)]
pub struct CropResult {
    pub pts: i64,
    pub width: i32,
    pub height: i32,
    pub aspect_ratio: Rational,
}

/// One accepted text span.
#[derive(Clone, Debug)]
pub struct OcrResult {
    pub frame_start: u64,
    pub frame_end: u64,
    pub text: String,
    pub word_confidence: String,
}

/// The mathematical shadow of an accepted text span.
#[verifier::ext_equal]
pub ghost struct OcrResultModel {
    pub frame_start: u64,
    pub frame_end: u64,
    pub text: Seq<char>,
    pub word_confidence: Seq<char>,
}

impl View for OcrResult {
    type V = OcrResultModel;

    open spec fn view(&self) -> OcrResultModel {
        OcrResultModel {
            frame_start: self.frame_start,
            frame_end: self.frame_end,
            text: self.text@,
            word_confidence: self.word_confidence@,
        }
    }
}

/// One accepted scene cut.
#[derive(Clone, Copy, Debug, PartialEq, Eq, Structural)]
pub struct SceneResult {
    pub frame: i64,
    pub score: i32,
    pub scene_number: u64,
}

/// A scene cut that follows its predecessor by exactly one frame, the
/// encoder-induced double-cut artifact.
#[derive(Clone, Copy, Debug, PartialEq, Eq, Structural)]
pub struct FalseSceneResult {
    pub frame: i64,
}

pub open spec fn opt_str_view(o: Option<String>) -> Option<Seq<char>> {
    match o {
        Some(s) => Some(s@),
        None => None,
    }
}

/// The per-stream accumulator every detector folds its results into.
pub struct StreamProbeResult {
    pub stream_index: usize,
    pub count_packets: usize,
    pub min_packet_size: i32,
    pub max_packet_size: i32,
    pub color_space: Option<String>,
    pub color_range: Option<String>,
    pub color_primaries: Option<String>,
    pub color_trc: Option<String>,
    pub color_matrix: Option<String>,
    pub detected_silence: Vec<SilenceResult>,
    /// Whether the stream is silent throughout. No pass of this library
    /// sets it: it starts absent, stays absent through every detector,
    /// and is carried (omitted when absent) only so that reports written
    /// elsewhere, which may hold it, survive a round trip.
    pub silent_stream: Option<bool>,
    pub detected_black: Vec<BlackResult>,
    pub detected_crop: Vec<CropResult>,
    pub detected_ocr: Vec<OcrResult>,
    pub detected_bitrate: Option<i64>,
    pub black_and_silence: Vec<BlackAndSilenceResult>,
    pub detected_scene: Vec<SceneResult>,
    pub detected_false_scene: Vec<FalseSceneResult>,
}

/// The mathematical shadow of a per-stream accumulator.
#[verifier::ext_equal]
pub ghost struct StreamProbeModel {
    pub stream_index: int,
    pub count_packets: int,
    pub min_packet_size: int,
    pub max_packet_size: int,
    pub color_space: Option<Seq<char>>,
    pub color_range: Option<Seq<char>>,
    pub color_primaries: Option<Seq<char>>,
    pub color_trc: Option<Seq<char>>,
    pub color_matrix: Option<Seq<char>>,
    pub detected_silence: Seq<SilenceResult>,
    pub silent_stream: Option<bool>,
    pub detected_black: Seq<BlackResult>,
    pub detected_crop: Seq<CropResult>,
    pub detected_ocr: Seq<OcrResultModel>,
    pub detected_bitrate: Option<i64>,
    pub black_and_silence: Seq<BlackAndSilenceResult>,
    pub detected_scene: Seq<SceneResult>,
    pub detected_false_scene: Seq<FalseSceneResult>,
}

impl View for StreamProbeResult {
    type V = StreamProbeModel;

    open spec fn view(&self) -> StreamProbeModel {
        StreamProbeModel {
            stream_index: self.stream_index as int,
            count_packets: self.count_packets as int,
            min_packet_size: self.min_packet_size as int,
            max_packet_size: self.max_packet_size as int,
            color_space: opt_str_view(self.color_space),
            color_range: opt_str_view(self.color_range),
            color_primaries: opt_str_view(self.color_primaries),
            color_trc: opt_str_view(self.color_trc),
            color_matrix: opt_str_view(self.color_matrix),
            detected_silence: self.detected_silence@,
            silent_stream: self.silent_stream,
            detected_black: self.detected_black@,
            detected_crop: self.detected_crop@,
            detected_ocr: self.detected_ocr@.map_values(|o: OcrResult| o@),
            detected_bitrate: self.detected_bitrate,
            black_and_silence: self.black_and_silence@,
            detected_scene: self.detected_scene@,
            detected_false_scene: self.detected_false_scene@,
        }
    }
}

/// The models of a whole stream list.
pub open spec fn models(v: Seq<StreamProbeResult>) -> Seq<StreamProbeModel> {
    v.map_values(|s: StreamProbeResult| s@)
}

pub proof fn lemma_models_update(v: Seq<StreamProbeResult>, i: int, x: StreamProbeResult)
    requires
        0 <= i < v.len(),
    ensures
        models(v.update(i, x)) =~= models(v).update(i, x@),
{
}

pub proof fn lemma_models_push(v: Seq<StreamProbeResult>, x: StreamProbeResult)
    ensures
        models(v.push(x)) =~= models(v).push(x@),
{
}

/// A fresh accumulator: packet extremes at the numeric sentinels so the
/// first observation always wins, everything else empty or absent.
pub open spec fn spec_new_stream() -> StreamProbeModel {
    StreamProbeModel {
        stream_index: 0,
        count_packets: 0,
        min_packet_size: i32::MAX as int,
        max_packet_size: i32::MIN as int,
        color_space: None,
        color_range: None,
        color_primaries: None,
        color_trc: None,
        color_matrix: None,
        detected_silence: Seq::empty(),
        silent_stream: None,
        detected_black: Seq::empty(),
        detected_crop: Seq::empty(),
        detected_ocr: Seq::empty(),
        detected_bitrate: None,
        black_and_silence: Seq::empty(),
        detected_scene: Seq::empty(),
        detected_false_scene: Seq::empty(),
    }
}

impl StreamProbeResult {
    pub fn new() -> (r: StreamProbeResult)
        ensures
            r@ == spec_new_stream(),
    {
        let r = StreamProbeResult {
            stream_index: 0,
            count_packets: 0,
            min_packet_size: i32::MAX,
            max_packet_size: i32::MIN,
            color_space: None,
            color_range: None,
            color_primaries: None,
            color_trc: None,
            color_matrix: None,
            detected_silence: Vec::new(),
            silent_stream: None,
            detected_black: Vec::new(),
            detected_crop: Vec::new(),
            detected_ocr: Vec::new(),
            detected_bitrate: None,
            black_and_silence: Vec::new(),
            detected_scene: Vec::new(),
            detected_false_scene: Vec::new(),
        };
        proof {
            assert(r@ =~= spec_new_stream());
        }
        r
    }
}

/// Format-level facts of the probed container.
#[derive(Clone, Copy, Debug)]
pub struct FormatProbeResult {
    pub detected_bitrate_format: Option<i64>,
}

impl FormatProbeResult {
    pub fn new() -> (r: FormatProbeResult)
        ensures
            r.detected_bitrate_format is None,
    {
        FormatProbeResult { detected_bitrate_format: None }
    }
}

/// What kind of payload a demuxed stream carries.
#[derive(Clone, Copy, Debug, PartialEq, Eq, Structural)]
pub enum StreamKind {
    Audio,
    Video,
    Other,
}

/// One demuxed packet, as the container hands it out.
#[derive(Clone, Copy, Debug, PartialEq, Eq, Structural)]
pub struct PacketInfo {
    pub stream_index: usize,
    pub size: i32,
}

/// Per-stream facts the stream metadata provider reports.
pub struct StreamInfo {
    pub kind: StreamKind,
    pub time_base: Rational,
    pub frame_rate: Rational,
    pub bit_rate: Option<i64>,
    pub color_space: Option<String>,
    pub color_range: Option<String>,
    pub color_primaries: Option<String>,
    pub color_trc: Option<String>,
    pub color_matrix: Option<String>,
}

/// Everything one pass over an opened container yields: the stream
/// facts, every demuxed packet in order, and the format bit rate.
pub struct MediaInfo {
    pub streams: Vec<StreamInfo>,
    pub packets: Vec<PacketInfo>,
    pub format_bit_rate: Option<i64>,
}

/// All fresh accumulators, one per stream.
pub open spec fn spec_init_streams(n: int) -> Seq<StreamProbeModel> {
    Seq::new(n as nat, |i: int| spec_new_stream())
}

/// One packet folded into the accumulators: count and size extremes for
/// its stream, and (for video streams) the color metadata, last
/// observation winning.
pub open spec fn spec_packet_step(
    ss: Seq<StreamProbeModel>,
    info: MediaInfo,
    p: PacketInfo,
) -> Seq<StreamProbeModel> {
    let s = p.stream_index as int;
    if 0 <= s < ss.len() && s < info.streams@.len() {
        let cur = ss[s];
        let si = info.streams@[s];
        let base = StreamProbeModel {
            stream_index: s,
            count_packets: cur.count_packets + 1,
            min_packet_size: if p.size < cur.min_packet_size {
                p.size as int
            } else {
                cur.min_packet_size
            },
            max_packet_size: if p.size > cur.max_packet_size {
                p.size as int
            } else {
                cur.max_packet_size
            },
            ..cur
        };
        let stepped = if si.kind == StreamKind::Video {
            StreamProbeModel {
                color_space: opt_str_view(si.color_space),
                color_range: opt_str_view(si.color_range),
                color_primaries: opt_str_view(si.color_primaries),
                color_trc: opt_str_view(si.color_trc),
                color_matrix: opt_str_view(si.color_matrix),
                ..base
            }
        } else {
            base
        };
        ss.update(s, stepped)
    } else {
        ss
    }
}

/// The packet pass, folded left over the packet sequence.
pub open spec fn spec_packet_fold(
    ss: Seq<StreamProbeModel>,
    info: MediaInfo,
    packets: Seq<PacketInfo>,
) -> Seq<StreamProbeModel>
    decreases packets.len(),
{
    if packets.len() == 0 {
        ss
    } else {
        spec_packet_fold(spec_packet_step(ss, info, packets[0]), info, packets.drop_first())
    }
}

/// How many packets of the sequence belong to stream `k`.
pub open spec fn spec_count_for(packets: Seq<PacketInfo>, k: int) -> int
    decreases packets.len(),
{
    if packets.len() == 0 {
        0
    } else {
        (if packets[0].stream_index as int == k {
            1int
        } else {
            0int
        }) + spec_count_for(packets.drop_first(), k)
    }
}

/// The running minimum of stream `k`'s packet sizes, from `acc`: the
/// smallest size among them, or `acc` itself when none is smaller (in
/// particular, `acc` when the stream has no packet at all).
pub open spec fn spec_min_fold(packets: Seq<PacketInfo>, k: int, acc: int) -> int
    decreases packets.len(),
{
    if packets.len() == 0 {
        acc
    } else {
        let next = if packets[0].stream_index as int == k && packets[0].size < acc {
            packets[0].size as int
        } else {
            acc
        };
        spec_min_fold(packets.drop_first(), k, next)
    }
}

/// The running maximum, dually.
pub open spec fn spec_max_fold(packets: Seq<PacketInfo>, k: int, acc: int) -> int
    decreases packets.len(),
{
    if packets.len() == 0 {
        acc
    } else {
        let next = if packets[0].stream_index as int == k && packets[0].size > acc {
            packets[0].size as int
        } else {
            acc
        };
        spec_max_fold(packets.drop_first(), k, next)
    }
}

proof fn lemma_packet_fold_stats_rec(
    ss: Seq<StreamProbeModel>,
    info: MediaInfo,
    packets: Seq<PacketInfo>,
    k: int,
)
    requires
        0 <= k < ss.len(),
        ss.len() == info.streams@.len(),
    ensures
        spec_packet_fold(ss, info, packets).len() == ss.len(),
        spec_packet_fold(ss, info, packets)[k].count_packets == ss[k].count_packets
            + spec_count_for(packets, k),
        spec_packet_fold(ss, info, packets)[k].min_packet_size == spec_min_fold(
            packets,
            k,
            ss[k].min_packet_size,
        ),
        spec_packet_fold(ss, info, packets)[k].max_packet_size == spec_max_fold(
            packets,
            k,
            ss[k].max_packet_size,
        ),
    decreases packets.len(),
{
    if packets.len() > 0 {
        lemma_packet_fold_stats_rec(
            spec_packet_step(ss, info, packets[0]),
            info,
            packets.drop_first(),
            k,
        );
    }
}

proof fn lemma_count_nonneg(packets: Seq<PacketInfo>, k: int)
    ensures
        spec_count_for(packets, k) >= 0,
    decreases packets.len(),
{
    if packets.len() > 0 {
        lemma_count_nonneg(packets.drop_first(), k);
    }
}

proof fn lemma_min_fold_untouched(packets: Seq<PacketInfo>, k: int, acc: int)
    requires
        spec_count_for(packets, k) == 0,
    ensures
        spec_min_fold(packets, k, acc) == acc,
        spec_max_fold(packets, k, acc) == acc,
    decreases packets.len(),
{
    if packets.len() > 0 {
        lemma_count_nonneg(packets.drop_first(), k);
        assert(spec_count_for(packets.drop_first(), k) == 0);
        lemma_min_fold_untouched(packets.drop_first(), k, acc);
    }
}

/// Packet statistics are exact: after the packet pass over fresh
/// accumulators, each stream's packet count is the number of its
/// packets, and its size extremes are the running minimum and maximum
/// of their sizes started from the numeric sentinels — so a stream that
/// saw no packet retains `i32::MAX` and `i32::MIN`, and one that saw any
/// holds the true minimum and maximum.
pub proof fn lemma_packet_statistics(info: MediaInfo, k: int)
    requires
        0 <= k < info.streams@.len(),
    ensures
        ({
            let out = spec_packet_fold(
                spec_init_streams(info.streams@.len() as int),
                info,
                info.packets@,
            );
            &&& out[k].count_packets == spec_count_for(info.packets@, k)
            &&& out[k].min_packet_size == spec_min_fold(info.packets@, k, i32::MAX as int)
            &&& out[k].max_packet_size == spec_max_fold(info.packets@, k, i32::MIN as int)
            &&& spec_count_for(info.packets@, k) == 0 ==> out[k].min_packet_size == i32::MAX
                && out[k].max_packet_size == i32::MIN
        }),
{
    let init = spec_init_streams(info.streams@.len() as int);
    lemma_packet_fold_stats_rec(init, info, info.packets@, k);
    if spec_count_for(info.packets@, k) == 0 {
        lemma_min_fold_untouched(info.packets@, k, i32::MAX as int);
        lemma_min_fold_untouched(info.packets@, k, i32::MIN as int);
    }
}

fn clone_opt_string(o: &Option<String>) -> (r: Option<String>)
    ensures
        opt_str_view(r) == opt_str_view(*o),
{
    match o {
        Some(s) => Some(s.clone()),
        None => None,
    }
}

/// Builds one fresh accumulator per stream and folds every demuxed
/// packet into them, in arrival order.
pub fn probe_streams(info: &MediaInfo) -> (r: Vec<StreamProbeResult>)
    ensures
        models(r@) == spec_packet_fold(
            spec_init_streams(info.streams@.len() as int),
            *info,
            info.packets@,
        ),
        r@.len() == info.streams@.len(),
{
    let n = info.streams.len();
    let mut streams: Vec<StreamProbeResult> = Vec::new();
    let mut i: usize = 0;
    while i < n
        invariant
            i <= n,
            streams@.len() == i,
            models(streams@) =~= spec_init_streams(i as int),
            forall|k: int| 0 <= k < i ==> models(streams@)[k].count_packets == 0,
        decreases n - i,
    {
        let ghost before = streams@;
        streams.push(StreamProbeResult::new());
        proof {
            lemma_models_push(before, streams@[i as int]);
            assert(models(streams@) =~= spec_init_streams((i + 1) as int));
        }
        i = i + 1;
    }
    let m = info.packets.len();
    let mut j: usize = 0;
    proof {
        assert(info.packets@.skip(0) =~= info.packets@);
        assert(models(streams@) =~= spec_init_streams(n as int));
    }
    while j < m
        invariant
            j <= m,
            m == info.packets@.len(),
            streams@.len() == n == info.streams@.len(),
            forall|k: int| 0 <= k < n ==> (#[trigger] models(streams@)[k]).count_packets <= j,
            spec_packet_fold(models(streams@), *info, info.packets@.skip(j as int))
                == spec_packet_fold(spec_init_streams(n as int), *info, info.packets@),
        decreases m - j,
    {
        let ghost pre = models(streams@);
        let ghost rest = info.packets@.skip(j as int);
        proof {
            assert(rest[0] == info.packets@[j as int]);
            assert(rest.drop_first() =~= info.packets@.skip(j as int + 1));
        }
        let p = info.packets[j];
        let idx = p.stream_index;
        if idx < n {
            let ghost old_streams = streams@;
            let is_video = match info.streams[idx].kind {
                StreamKind::Video => true,
                _ => false,
            };
            let elem = &mut streams[idx];
            elem.stream_index = idx;
            elem.count_packets = elem.count_packets + 1;
            if p.size < elem.min_packet_size {
                elem.min_packet_size = p.size;
            }
            if p.size > elem.max_packet_size {
                elem.max_packet_size = p.size;
            }
            if is_video {
                elem.color_space = clone_opt_string(&info.streams[idx].color_space);
                elem.color_range = clone_opt_string(&info.streams[idx].color_range);
                elem.color_primaries = clone_opt_string(&info.streams[idx].color_primaries);
                elem.color_trc = clone_opt_string(&info.streams[idx].color_trc);
                elem.color_matrix = clone_opt_string(&info.streams[idx].color_matrix);
            }
            proof {
                lemma_models_update(old_streams, idx as int, streams@[idx as int]);
                assert(models(streams@) =~= spec_packet_step(pre, *info, p));
            }
        } else {
            proof {
                assert(models(streams@) == spec_packet_step(pre, *info, p));
            }
        }
        j = j + 1;
    }
    proof {
        assert(info.packets@.skip(m as int) =~= Seq::<PacketInfo>::empty());
    }
    streams
}

/// The per-kind stream indexes, ascending.
pub open spec fn spec_kind_indexes(streams: Seq<StreamInfo>, kind: StreamKind, i: int) -> Seq<
    usize,
>
    decreases streams.len() - i,
{
    if i < 0 || i >= streams.len() {
        Seq::empty()
    } else {
        let rest = spec_kind_indexes(streams, kind, i + 1);
        if streams[i].kind == kind {
            seq![i as usize] + rest
        } else {
            rest
        }
    }
}

/// Collects the indexes of every stream of one kind, ascending.
pub fn kind_indexes(info: &MediaInfo, kind: StreamKind) -> (r: Vec<usize>)
    ensures
        r@ == spec_kind_indexes(info.streams@, kind, 0),
{
    let n = info.streams.len();
    let mut r: Vec<usize> = Vec::new();
    let mut i: usize = 0;
    while i < n
        invariant
            i <= n,
            n == info.streams@.len(),
            r@ + spec_kind_indexes(info.streams@, kind, i as int) =~= spec_kind_indexes(
                info.streams@,
                kind,
                0,
            ),
        decreases n - i,
    {
        let ghost before = r@;
        let matches_kind = match (info.streams[i].kind, kind) {
            (StreamKind::Audio, StreamKind::Audio) => true,
            (StreamKind::Video, StreamKind::Video) => true,
            (StreamKind::Other, StreamKind::Other) => true,
            _ => false,
        };
        if matches_kind {
            r.push(i);
        }
        proof {
            if matches_kind {
                assert(before + spec_kind_indexes(info.streams@, kind, i as int) =~= r@
                    + spec_kind_indexes(info.streams@, kind, i as int + 1));
            }
        }
        i = i + 1;
    }
    proof {
        assert(spec_kind_indexes(info.streams@, kind, n as int) =~= Seq::<usize>::empty());
        assert(r@ + Seq::<usize>::empty() =~= r@);
    }
    r
}

/// The per-stream time bases, in stream order.
pub fn stream_time_bases(info: &MediaInfo) -> (r: Vec<Rational>)
    ensures
        r@ == info.streams@.map_values(|si: StreamInfo| si.time_base),
{
    let n = info.streams.len();
    let mut r: Vec<Rational> = Vec::new();
    let mut i: usize = 0;
    while i < n
        invariant
            i <= n,
            n == info.streams@.len(),
            r@.len() == i,
            forall|k: int| 0 <= k < i ==> r@[k] == info.streams@[k].time_base,
        decreases n - i,
    {
        r.push(info.streams[i].time_base);
        i = i + 1;
    }
    proof {
        assert(r@ =~= info.streams@.map_values(|si: StreamInfo| si.time_base));
    }
    r
}

/// Every stream's detected bit rate replaced by what the metadata
/// provider reports.
pub open spec fn spec_apply_bitrates(ss: Seq<StreamProbeModel>, info: MediaInfo) -> Seq<
    StreamProbeModel,
> {
    Seq::new(
        ss.len(),
        |i: int|
            if i < info.streams@.len() {
                StreamProbeModel { detected_bitrate: info.streams@[i].bit_rate, ..ss[i] }
            } else {
                ss[i]
            },
    )
}

/// Writes the reported bit rate into every stream's record.
pub fn apply_bitrates(streams: &mut Vec<StreamProbeResult>, info: &MediaInfo)
    ensures
        models(final(streams)@) == spec_apply_bitrates(models(old(streams)@), *info),
{
    let n = streams.len();
    let mut i: usize = 0;
    while i < n
        invariant
            i <= n,
            streams@.len() == n,
            old(streams)@.len() == n,
            forall|k: int|
                i <= k < n ==> models(streams@)[k] == #[trigger] models(old(streams)@)[k],
            forall|k: int|
                0 <= k < i ==> models(streams@)[k] == #[trigger] spec_apply_bitrates(
                    models(old(streams)@),
                    *info,
                )[k],
        decreases n - i,
    {
        let ghost before = streams@;
        if i < info.streams.len() {
            let elem = &mut streams[i];
            elem.detected_bitrate = info.streams[i].bit_rate;
        }
        proof {
            if i < info.streams@.len() {
                lemma_models_update(before, i as int, streams@[i as int]);
                assert(models(streams@)[i as int] =~= spec_apply_bitrates(
                    models(old(streams)@),
                    *info,
                )[i as int]);
            } else {
                assert(models(streams@)[i as int] == spec_apply_bitrates(
                    models(old(streams)@),
                    *info,
                )[i as int]);
            }
        }
        i = i + 1;
    }
    proof {
        assert(models(streams@) =~= spec_apply_bitrates(models(old(streams)@), *info));
    }
}

/// The annotation streams the execution engine produced, one per
/// requested detector pass; an unrequested detector's entries are
/// ignored.
pub struct DetectorEntries {
    pub silence: Vec<EntryResult>,
    pub black: Vec<EntryResult>,
    pub crop: Vec<EntryResult>,
    pub ocr: Vec<EntryResult>,
}

impl DetectorEntries {
    /// No annotations at all.
    pub fn empty() -> (r: DetectorEntries)
        ensures
            r.silence@ =~= Seq::<EntryResult>::empty(),
            r.black@ =~= Seq::<EntryResult>::empty(),
            r.crop@ =~= Seq::<EntryResult>::empty(),
            r.ocr@ =~= Seq::<EntryResult>::empty(),
    {
        DetectorEntries { silence: Vec::new(), black: Vec::new(), crop: Vec::new(), ocr: Vec::new() }
    }
}

/// The whole report.
pub struct DeepProbeResult {
    pub streams: Vec<StreamProbeResult>,
    pub format: FormatProbeResult,
}

/// One deep probe of one file: the per-stream packet statistics and
/// every requested detector, folded into one report.
pub struct DeepProbe {
    pub filename: String,
    pub result: Option<DeepProbeResult>,
}

/// The deep-probe pipeline over an opened container: fresh accumulators,
/// the packet pass, then the requested detectors in their fixed order —
/// silence, black, black-and-silence, crop, ocr; black-and-silence reads
/// what the silence and black passes produced — and finally the reported
/// bit rates.
pub open spec fn spec_process_streams(
    info: MediaInfo,
    src: DetectorEntries,
    check: DeepProbeCheck,
) -> Seq<StreamProbeModel> {
    let audio = spec_kind_indexes(info.streams@, StreamKind::Audio, 0);
    let video = spec_kind_indexes(info.streams@, StreamKind::Video, 0);
    let tbs = info.streams@.map_values(|si: StreamInfo| si.time_base);
    let s0 = spec_packet_fold(spec_init_streams(info.streams@.len() as int), info, info.packets@);
    let s1 = match check.silence_detect {
        Some(p) => crate::interval::spec_detect_intervals(
            s0,
            src.silence@,
            crate::interval::IntervalKind::Silence,
            audio,
            tbs,
            spec_duration_bounds(p@).0,
            spec_duration_bounds(p@).1,
        ),
        None => s0,
    };
    let s2 = match check.black_detect {
        Some(p) => crate::interval::spec_detect_intervals(
            s1,
            src.black@,
            crate::interval::IntervalKind::Black,
            video,
            tbs,
            spec_duration_bounds(p@).0,
            spec_duration_bounds(p@).1,
        ),
        None => s1,
    };
    let s3 = match check.black_and_silence_detect {
        Some(p) => crate::black_and_silence::spec_detect_black_and_silence(
            s2,
            video,
            audio,
            spec_duration_bounds(p@).0,
        ),
        None => s2,
    };
    let s4 = match check.crop_detect {
        Some(p) => crate::crop_detect::spec_detect_crop(
            s3,
            src.crop@,
            crate::crop_detect::spec_spot_check(p@),
        ),
        None => s3,
    };
    let s5 = match check.ocr_detect {
        Some(p) => crate::ocr_detect::spec_detect_ocr(
            s4,
            src.ocr@,
            crate::ocr_detect::spec_ocr_threshold(p@),
        ),
        None => s4,
    };
    spec_apply_bitrates(s5, info)
}

impl DeepProbe {
    pub fn new(filename: &str) -> (r: DeepProbe)
        ensures
            r.result is None,
            r.filename@ == filename@,
    {
        DeepProbe { filename: filename.to_owned(), result: None }
    }

    /// Runs a deep probe over what the execution boundary gathered.
    /// A file that could not be opened arrives as `None` and is a soft
    /// failure: the result is absent and the call still succeeds — never
    /// a propagated error. On an opened container the report is exactly
    /// the pipeline's: packet statistics, the requested detectors in
    /// their fixed order, and the reported bit rates.
    pub fn process(
        &mut self,
        opened: Option<MediaInfo>,
        sources: &DetectorEntries,
        check: &DeepProbeCheck,
    ) -> (r: Result<(), String>)
        requires
            check.wf(),
        ensures
            r is Ok,
            final(self).filename == old(self).filename,
            old(self).filename == final(self).filename,
            opened is None ==> final(self).result is None,
            opened matches Some(info) ==> (final(self).result matches Some(dpr) && {
                &&& models(dpr.streams@) == spec_process_streams(info, *sources, *check)
                &&& dpr.format.detected_bitrate_format == info.format_bit_rate
            }),
    {
        match opened {
            None => {
                self.result = None;
                Ok(())
            },
            Some(info) => {
                let mut streams = probe_streams(&info);
                let audio_indexes = kind_indexes(&info, StreamKind::Audio);
                let video_indexes = kind_indexes(&info, StreamKind::Video);
                let time_bases = stream_time_bases(&info);
                match &check.silence_detect {
                    Some(p) => {
                        crate::silence_detect::detect_silence(
                            &sources.silence,
                            &mut streams,
                            &audio_indexes,
                            &time_bases,
                            p,
                        );
                    },
                    None => {},
                }
                match &check.black_detect {
                    Some(p) => {
                        crate::black_detect::detect_black_frames(
                            &sources.black,
                            &mut streams,
                            &video_indexes,
                            &time_bases,
                            p,
                        );
                    },
                    None => {},
                }
                match &check.black_and_silence_detect {
                    Some(p) => {
                        crate::black_and_silence::detect_black_and_silence(
                            &mut streams,
                            &video_indexes,
                            &audio_indexes,
                            p,
                        );
                    },
                    None => {},
                }
                match &check.crop_detect {
                    Some(p) => {
                        crate::crop_detect::detect_black_borders(&sources.crop, &mut streams, p);
                    },
                    None => {},
                }
                match &check.ocr_detect {
                    Some(p) => {
                        crate::ocr_detect::detect_ocr(&sources.ocr, &mut streams, p);
                    },
                    None => {},
                }
                apply_bitrates(&mut streams, &info);
                let mut format = FormatProbeResult::new();
                format.detected_bitrate_format = info.format_bit_rate;
                self.result = Some(DeepProbeResult { streams, format });
                Ok(())
            },
        }
    }
}

} // verus!
