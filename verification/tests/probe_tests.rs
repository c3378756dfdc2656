use media_probe::black_and_silence::detect_black_and_silence;
use media_probe::black_detect::detect_black_frames;
use media_probe::check::{CheckParameterMap, CheckParameterValue, DeepProbeCheck};
use media_probe::crop_detect::detect_black_borders;
use media_probe::decimal::{parse_decimal, Decimal};
use media_probe::deep::{
    BlackAndSilenceResult, BlackResult, DeepProbe, DetectorEntries, MediaInfo, PacketInfo,
    SilenceResult, StreamInfo, StreamKind, StreamProbeResult,
};
use media_probe::entry::EntryResult;
use media_probe::ocr_detect::detect_ocr;
use media_probe::rational::Rational;
use media_probe::scene_detect::detect_scene;
use media_probe::serial::{from_serial, to_serial, StreamProbeSerial};
use media_probe::silence_detect::detect_silence;

fn entry(pairs: &[(&str, &str)]) -> EntryResult {
    let mut e = EntryResult::new();
    for (k, v) in pairs {
        e.push(k.to_string(), v.to_string());
    }
    e
}

fn duration_params(min: Option<u64>, max: Option<u64>) -> CheckParameterMap {
    let mut params = CheckParameterMap::new();
    params.push(
        "duration".to_string(),
        CheckParameterValue { min, max, num: None, den: None, th: None, pairs: None },
    );
    params
}

fn audio_stream_info(tb: Rational) -> StreamInfo {
    StreamInfo {
        kind: StreamKind::Audio,
        time_base: tb,
        frame_rate: Rational { num: 25, den: 1 },
        bit_rate: Some(128000),
        color_space: None,
        color_range: None,
        color_primaries: None,
        color_trc: None,
        color_matrix: None,
    }
}

#[test]
fn deep_probe_mxf_sample() {
    let mut probe = DeepProbe::new("tests/PAL_1080i_MPEG_XDCAM-HD_colorbar.mxf");
    let mut params = CheckParameterMap::new();
    let duration = CheckParameterValue {
        min: Some(2000),
        max: None,
        num: None,
        den: None,
        th: None,
        pairs: None,
    };
    params.push("duration".to_string(), duration);
    let check_list = DeepProbeCheck {
        silence_detect: Some(params),
        black_detect: None,
        black_and_silence_detect: None,
        crop_detect: None,
        ocr_detect: None,
    };
    // the sample container is not available here, so opening it fails:
    // a soft failure, never a propagated error
    probe
        .process(None, &DetectorEntries::empty(), &check_list)
        .unwrap();
    assert!(probe.result.is_none());
}

#[test]
fn silence_intervals_respect_bounds() {
    let entries = vec![
        entry(&[("stream_id", "0"), ("lavfi.silence_start", "1.0")]),
        entry(&[("stream_id", "0"), ("lavfi.silence_duration", "3.0")]),
        entry(&[("stream_id", "0"), ("lavfi.silence_start", "10.0")]),
        entry(&[("stream_id", "0"), ("lavfi.silence_duration", "1.5")]),
    ];
    let mut streams = vec![StreamProbeResult::new()];
    let audio = vec![0usize];
    let tbs = vec![Rational { num: 1, den: 1000 }];
    let params = duration_params(Some(2000), None);
    detect_silence(&entries, &mut streams, &audio, &tbs, &params);
    // 3.0 s at 1/1000 is 3000 ticks and passes; 1.5 s is 1500 and does not
    assert_eq!(
        streams[0].detected_silence,
        vec![SilenceResult { start: 1000, end: 4000 }]
    );
}

#[test]
fn silence_max_bound_excludes_long_intervals() {
    let entries = vec![entry(&[
        ("stream_id", "0"),
        ("lavfi.silence_start", "0.0"),
        ("lavfi.silence_duration", "9.0"),
    ])];
    let mut streams = vec![StreamProbeResult::new()];
    let audio = vec![0usize];
    let tbs = vec![Rational { num: 1, den: 1000 }];
    let params = duration_params(Some(2000), Some(5000));
    detect_silence(&entries, &mut streams, &audio, &tbs, &params);
    assert!(streams[0].detected_silence.is_empty());
}

#[test]
fn silence_ignores_foreign_streams() {
    let entries = vec![entry(&[
        ("stream_id", "1"),
        ("lavfi.silence_start", "0.0"),
        ("lavfi.silence_duration", "9.0"),
    ])];
    let mut streams = vec![StreamProbeResult::new(), StreamProbeResult::new()];
    let audio = vec![0usize];
    let tbs = vec![
        Rational { num: 1, den: 1000 },
        Rational { num: 1, den: 1000 },
    ];
    let params = duration_params(None, None);
    detect_silence(&entries, &mut streams, &audio, &tbs, &params);
    assert!(streams[0].detected_silence.is_empty());
    assert!(streams[1].detected_silence.is_empty());
}

#[test]
fn black_intervals_detected() {
    let entries = vec![entry(&[
        ("stream_id", "0"),
        ("lavfi.black_start", "2.0"),
        ("lavfi.black_duration", "4.0"),
    ])];
    let mut streams = vec![StreamProbeResult::new()];
    let video = vec![0usize];
    let tbs = vec![Rational { num: 1, den: 90000 }];
    let params = duration_params(None, None);
    detect_black_frames(&entries, &mut streams, &video, &tbs, &params);
    assert_eq!(
        streams[0].detected_black,
        vec![BlackResult { start: 180000, end: 540000 }]
    );
}

#[test]
fn scene_cuts_and_false_scene() {
    let entries = vec![
        entry(&[
            ("stream_id", "0"),
            ("lavfi.scd.time", "100"),
            ("lavfi.scd.score", "51.9"),
        ]),
        entry(&[("stream_id", "0"), ("lavfi.scd.time", "101")]),
        entry(&[("stream_id", "0"), ("lavfi.scd.time", "200")]),
    ];
    let mut streams = vec![StreamProbeResult::new()];
    let tb = Rational { num: 1, den: 1 };
    let fr = Rational { num: 25, den: 1 };
    detect_scene(&entries, &mut streams, tb, fr);
    // frame = floor(v * (1/1) / 25 * 25) = v; the cut at 101 sits one
    // frame after its predecessor, so it is redirected into the
    // false-scene list instead of the accepted list and takes no number
    let scenes = &streams[0].detected_scene;
    assert_eq!(scenes.len(), 2);
    assert_eq!(scenes[0].frame, 100);
    assert_eq!(scenes[0].score, 51);
    assert_eq!(scenes[0].scene_number, 1);
    assert_eq!(scenes[1].frame, 200);
    assert_eq!(scenes[1].scene_number, 2);
    let false_scenes = &streams[0].detected_false_scene;
    assert_eq!(false_scenes.len(), 1);
    assert_eq!(false_scenes[0].frame, 101);
}

#[test]
fn black_and_silence_overlap_accepted() {
    let mut streams = vec![StreamProbeResult::new(), StreamProbeResult::new()];
    streams[0].detected_black.push(BlackResult { start: 0, end: 100 });
    streams[1]
        .detected_silence
        .push(SilenceResult { start: 50, end: 150 });
    let video = vec![0usize];
    let audio = vec![1usize];
    let params = duration_params(Some(10), None);
    detect_black_and_silence(&mut streams, &video, &audio, &params);
    // overlap is [50,100], 50 ticks long, at least 10
    assert_eq!(
        streams[0].black_and_silence,
        vec![BlackAndSilenceResult { start: 50, end: 100 }]
    );
}

#[test]
fn black_and_silence_short_overlap_rejected() {
    let mut streams = vec![StreamProbeResult::new(), StreamProbeResult::new()];
    streams[0].detected_black.push(BlackResult { start: 0, end: 100 });
    streams[1]
        .detected_silence
        .push(SilenceResult { start: 50, end: 150 });
    let video = vec![0usize];
    let audio = vec![1usize];
    let params = duration_params(Some(60), None);
    detect_black_and_silence(&mut streams, &video, &audio, &params);
    // the overlap is only 50 ticks
    assert!(streams[0].black_and_silence.is_empty());
}

#[test]
fn crop_rectangles_with_spot_check_cap() {
    let entries = vec![
        entry(&[
            ("stream_id", "0"),
            ("lavfi.cropdetect.pts", "42"),
            ("lavfi.cropdetect.w", "1920"),
            ("lavfi.cropdetect.h", "800"),
        ]),
        entry(&[
            ("stream_id", "0"),
            ("lavfi.cropdetect.pts", "84"),
            ("lavfi.cropdetect.w", "1920"),
            ("lavfi.cropdetect.h", "804"),
        ]),
    ];
    let mut streams = vec![StreamProbeResult::new()];
    let mut params = CheckParameterMap::new();
    params.push(
        "spot_check".to_string(),
        CheckParameterValue { min: None, max: Some(1), num: None, den: None, th: None, pairs: None },
    );
    detect_black_borders(&entries, &mut streams, &params);
    // the cap retains only the first observation
    assert_eq!(streams[0].detected_crop.len(), 1);
    let c = &streams[0].detected_crop[0];
    assert_eq!(c.pts, 42);
    assert_eq!(c.width, 1920);
    assert_eq!(c.height, 800);
    assert_eq!(c.aspect_ratio, Rational { num: 1920, den: 800 });
}

#[test]
fn ocr_threshold_gates_spans() {
    let entries = vec![
        entry(&[
            ("stream_id", "0"),
            ("lavfi.ocr.text", "MEDIA OFFLINE"),
            ("lavfi.ocr.confidence", "85.5"),
            ("lavfi.ocr.word_confidence", "90 81"),
            ("lavfi.ocr.frame_start", "5"),
            ("lavfi.ocr.frame_end", "9"),
        ]),
        entry(&[
            ("stream_id", "0"),
            ("lavfi.ocr.text", "noise"),
            ("lavfi.ocr.confidence", "10.0"),
            ("lavfi.ocr.frame_start", "12"),
            ("lavfi.ocr.frame_end", "12"),
        ]),
    ];
    let mut streams = vec![StreamProbeResult::new()];
    let mut params = CheckParameterMap::new();
    params.push(
        "threshold".to_string(),
        CheckParameterValue {
            min: None,
            max: None,
            num: None,
            den: None,
            th: Some(Decimal { mantissa: 80, scale: 0 }),
            pairs: None,
        },
    );
    detect_ocr(&entries, &mut streams, &params);
    assert_eq!(streams[0].detected_ocr.len(), 1);
    let o = &streams[0].detected_ocr[0];
    assert_eq!(o.frame_start, 5);
    assert_eq!(o.frame_end, 9);
    assert_eq!(o.text, "MEDIA OFFLINE");
    assert_eq!(o.word_confidence, "90 81");
}

#[test]
fn packet_statistics_min_max_count() {
    let info = MediaInfo {
        streams: vec![
            audio_stream_info(Rational { num: 1, den: 1000 }),
            audio_stream_info(Rational { num: 1, den: 1000 }),
        ],
        packets: vec![
            PacketInfo { stream_index: 0, size: 10 },
            PacketInfo { stream_index: 0, size: 5 },
            PacketInfo { stream_index: 0, size: 20 },
        ],
        format_bit_rate: None,
    };
    let streams = media_probe::deep::probe_streams(&info);
    assert_eq!(streams[0].count_packets, 3);
    assert_eq!(streams[0].min_packet_size, 5);
    assert_eq!(streams[0].max_packet_size, 20);
    // an untouched stream keeps the sentinel extremes
    assert_eq!(streams[1].count_packets, 0);
    assert_eq!(streams[1].min_packet_size, i32::MAX);
    assert_eq!(streams[1].max_packet_size, i32::MIN);
}

#[test]
fn deep_probe_end_to_end_silence() {
    let mut probe = DeepProbe::new("silent_track.wav");
    let info = MediaInfo {
        streams: vec![audio_stream_info(Rational { num: 1, den: 1000 })],
        packets: vec![
            PacketInfo { stream_index: 0, size: 100 },
            PacketInfo { stream_index: 0, size: 50 },
        ],
        format_bit_rate: Some(5_000_000),
    };
    let sources = DetectorEntries {
        silence: vec![
            entry(&[
                ("stream_id", "0"),
                ("lavfi.silence_start", "0.0"),
                ("lavfi.silence_duration", "2.5"),
            ]),
            entry(&[
                ("stream_id", "0"),
                ("lavfi.silence_start", "7.0"),
                ("lavfi.silence_duration", "0.5"),
            ]),
        ],
        black: Vec::new(),
        crop: Vec::new(),
        ocr: Vec::new(),
    };
    let check = DeepProbeCheck {
        silence_detect: Some(duration_params(Some(2000), None)),
        black_detect: None,
        black_and_silence_detect: None,
        crop_detect: None,
        ocr_detect: None,
    };
    probe.process(Some(info), &sources, &check).unwrap();
    let result = probe.result.as_ref().unwrap();
    let stream = &result.streams[0];
    // at least one detected silence, and every one at least 2000 ticks
    assert!(!stream.detected_silence.is_empty());
    for s in &stream.detected_silence {
        assert!(s.end - s.start >= 2000);
    }
    assert_eq!(
        stream.detected_silence,
        vec![SilenceResult { start: 0, end: 2500 }]
    );
    assert_eq!(stream.count_packets, 2);
    assert_eq!(stream.min_packet_size, 50);
    assert_eq!(stream.max_packet_size, 100);
    assert_eq!(stream.detected_bitrate, Some(128000));
    assert_eq!(result.format.detected_bitrate_format, Some(5_000_000));
}

#[test]
fn soft_failure_on_unreadable_file() {
    let mut probe = DeepProbe::new("does_not_exist.mxf");
    let check = DeepProbeCheck {
        silence_detect: None,
        black_detect: None,
        black_and_silence_detect: None,
        crop_detect: None,
        ocr_detect: None,
    };
    let outcome = probe.process(None, &DetectorEntries::empty(), &check);
    assert!(outcome.is_ok());
    assert!(probe.result.is_none());
}

#[test]
fn serial_omits_empty_lists_and_round_trips() {
    let mut s = StreamProbeResult::new();
    s.stream_index = 3;
    s.detected_silence.push(SilenceResult { start: 1, end: 5 });
    let d = to_serial(&s);
    // a non-empty list is present, empty ones are omitted
    assert_eq!(
        d.detected_silence,
        Some(vec![SilenceResult { start: 1, end: 5 }])
    );
    assert!(d.detected_black.is_none());
    assert!(d.detected_crop.is_none());
    assert!(d.black_and_silence.is_none());
    assert!(d.detected_scene.is_none());
    let back = from_serial(d);
    assert_eq!(back.stream_index, 3);
    assert_eq!(back.detected_silence, s.detected_silence);
    assert!(back.detected_black.is_empty());
}

#[test]
fn serial_omission_form_reads_as_empty() {
    let d = StreamProbeSerial {
        stream_index: 0,
        count_packets: 7,
        min_packet_size: 1,
        max_packet_size: 9,
        color_space: None,
        color_range: None,
        color_primaries: None,
        color_trc: None,
        color_matrix: None,
        detected_silence: None,
        silent_stream: None,
        detected_black: None,
        detected_crop: None,
        detected_ocr: None,
        detected_bitrate: None,
        black_and_silence: None,
        detected_scene: None,
        detected_false_scene: None,
    };
    let s = from_serial(d);
    assert_eq!(s.count_packets, 7);
    assert!(s.detected_silence.is_empty());
    assert!(s.detected_black.is_empty());
    assert!(s.detected_crop.is_empty());
    assert!(s.detected_ocr.is_empty());
    assert!(s.black_and_silence.is_empty());
    assert!(s.detected_scene.is_empty());
    assert!(s.detected_false_scene.is_empty());
}

#[test]
fn silence_entry_needs_open_interval() {
    // a duration with no opened start changes nothing
    let entries = vec![entry(&[
        ("stream_id", "0"),
        ("lavfi.silence_duration", "3.0"),
    ])];
    let mut streams = vec![StreamProbeResult::new()];
    let audio = vec![0usize];
    let tbs = vec![Rational { num: 1, den: 1000 }];
    let params = duration_params(None, None);
    detect_silence(&entries, &mut streams, &audio, &tbs, &params);
    assert!(streams[0].detected_silence.is_empty());
    // a malformed value is skipped, detection continues afterwards
    let entries2 = vec![
        entry(&[("stream_id", "0"), ("lavfi.silence_start", "oops")]),
        entry(&[("stream_id", "0"), ("lavfi.silence_start", "1.0")]),
        entry(&[("stream_id", "0"), ("lavfi.silence_duration", "2.0")]),
    ];
    let mut streams2 = vec![StreamProbeResult::new()];
    detect_silence(&entries2, &mut streams2, &audio, &tbs, &params);
    assert_eq!(
        streams2[0].detected_silence,
        vec![SilenceResult { start: 1000, end: 3000 }]
    );
}

#[test]
fn simple_probe_reads_format_facts() {
    let mut probe = media_probe::simple::Probe::new("input.mxf");
    let info = MediaInfo {
        streams: vec![audio_stream_info(Rational { num: 1, den: 48000 })],
        packets: Vec::new(),
        format_bit_rate: Some(1_500_000),
    };
    assert!(probe.process(Some(info)).is_ok());
    let result = probe.result.as_ref().unwrap();
    assert_eq!(result.format_bit_rate, Some(1_500_000));
    assert_eq!(result.streams.len(), 1);
    assert_eq!(result.streams[0].stream_index, 0);
    assert_eq!(result.streams[0].kind, StreamKind::Audio);
    assert_eq!(result.streams[0].bit_rate, Some(128000));
    // the lightweight probe propagates an open failure
    let mut failing = media_probe::simple::Probe::new("missing.mxf");
    assert!(failing.process(None).is_err());
    assert!(failing.result.is_none());
}

#[test]
fn decimal_parse_examples() {
    assert_eq!(
        parse_decimal("0.5"),
        Some(Decimal { mantissa: 5, scale: 1 })
    );
    assert_eq!(parse_decimal("007"), Some(Decimal { mantissa: 7, scale: 0 }));
}
