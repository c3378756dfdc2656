use media_probe::check::{layout_qualifies, CheckParameterMap, CheckParameterValue, Track};
use media_probe::decimal::{dec_ge, parse_decimal, pow10_u64, scene_frame, to_ticks, Decimal};
use media_probe::entry::{entry_stream, EntryResult};
use media_probe::order::{
    Filter, FilterInput, FilterOutput, Input, InputKind, Order, Output, OutputKind, Stream,
};
use media_probe::rational::Rational;

fn knob(
    min: Option<u64>,
    max: Option<u64>,
    th: Option<Decimal>,
) -> CheckParameterValue {
    CheckParameterValue { min, max, num: None, den: None, th, pairs: None }
}

#[test]
fn parse_decimal_whole() {
    let d = parse_decimal("2000").unwrap();
    assert_eq!(d.mantissa, 2000);
    assert_eq!(d.scale, 0);
}

#[test]
fn parse_decimal_fractional() {
    let d = parse_decimal("1.84").unwrap();
    assert_eq!(d.mantissa, 184);
    assert_eq!(d.scale, 2);
}

#[test]
fn parse_decimal_rejects_malformed() {
    assert!(parse_decimal("").is_none());
    assert!(parse_decimal("abc").is_none());
    assert!(parse_decimal(".5").is_none());
    assert!(parse_decimal("5.").is_none());
    assert!(parse_decimal("1.2.3").is_none());
    assert!(parse_decimal("-1.5").is_none());
    assert!(parse_decimal("1 2").is_none());
}

#[test]
fn parse_decimal_rejects_out_of_range() {
    // one past u64::MAX
    assert!(parse_decimal("18446744073709551616").is_none());
    // exactly u64::MAX still fits
    let d = parse_decimal("18446744073709551615").unwrap();
    assert_eq!(d.mantissa, u64::MAX);
    // more fractional digits than a decimal may carry
    assert!(parse_decimal("0.1234567890123456789").is_none());
}

#[test]
fn pow10_table() {
    assert_eq!(pow10_u64(0), 1);
    assert_eq!(pow10_u64(3), 1000);
    assert_eq!(pow10_u64(18), 1_000_000_000_000_000_000);
}

#[test]
fn ticks_conversion_exact() {
    // 1.84 seconds at a 1/1000 time base is 1840 ticks
    let d = parse_decimal("1.84").unwrap();
    let tb = Rational::new(1, 1000).unwrap();
    assert_eq!(to_ticks(&d, &tb), Some(1840));
    // 0.5 seconds at 1/3 rounds down: 0.5 * 3 / 1 = 1.5 -> 1
    let h = parse_decimal("0.5").unwrap();
    let tb3 = Rational::new(1, 3).unwrap();
    assert_eq!(to_ticks(&h, &tb3), Some(1));
}

#[test]
fn scene_frame_formula() {
    // floor(v * (tb.num/tb.den) / 25 * (fr.num/fr.den))
    let v = parse_decimal("100").unwrap();
    let tb = Rational::new(1, 1).unwrap();
    let fr = Rational::new(25, 1).unwrap();
    assert_eq!(scene_frame(&v, &tb, &fr), Some(100));
    // a fractional outcome truncates: 10.5 * 1 / 25 * 50 = 21
    let v2 = parse_decimal("10.5").unwrap();
    let fr50 = Rational::new(50, 1).unwrap();
    assert_eq!(scene_frame(&v2, &tb, &fr50), Some(21));
}

#[test]
fn decimal_comparison_cross_scale() {
    let a = parse_decimal("85.5").unwrap();
    let b = parse_decimal("80").unwrap();
    assert!(dec_ge(&a, &b));
    assert!(!dec_ge(&b, &a));
    let eq1 = parse_decimal("2.50").unwrap();
    let eq2 = parse_decimal("2.5").unwrap();
    assert!(dec_ge(&eq1, &eq2) && dec_ge(&eq2, &eq1));
}

#[test]
fn entry_lookup_first_match() {
    let mut e = EntryResult::new();
    e.push("stream_id".to_string(), "2".to_string());
    e.push("lavfi.silence_start".to_string(), "1.0".to_string());
    assert_eq!(e.get("stream_id").unwrap(), "2");
    assert!(e.get("lavfi.silence_duration").is_none());
    assert_eq!(entry_stream(&e, 3), Some(2));
    assert_eq!(entry_stream(&e, 2), None);
}

#[test]
fn parameter_map_lookup() {
    let mut params = CheckParameterMap::new();
    params.push("duration".to_string(), knob(Some(2000), Some(10000), None));
    let v = params.get("duration").unwrap();
    assert_eq!(v.min, Some(2000));
    assert_eq!(v.max, Some(10000));
    assert!(params.get("spot_check").is_none());
}

#[test]
fn parameter_map_well_formedness() {
    let mut good = CheckParameterMap::new();
    good.push(
        "threshold".to_string(),
        knob(None, None, Some(Decimal { mantissa: 80, scale: 1 })),
    );
    assert!(good.is_wf());
    let mut bad = CheckParameterMap::new();
    // a threshold with more fractional digits than a decimal may carry
    bad.push(
        "threshold".to_string(),
        knob(None, None, Some(Decimal { mantissa: 80, scale: 19 })),
    );
    assert!(!bad.is_wf());
}

#[test]
fn track_layout_qualification() {
    // stereo on stream 1, or a 5.1 track on stream 1 with stereo on 2
    let layouts = vec![
        vec![Track { index: 1, channels: 2 }],
        vec![Track { index: 1, channels: 6 }, Track { index: 2, channels: 2 }],
    ];
    let observed_stereo = vec![Track { index: 1, channels: 2 }];
    assert!(layout_qualifies(&layouts, &observed_stereo));
    let observed_pair = vec![
        Track { index: 1, channels: 6 },
        Track { index: 2, channels: 2 },
    ];
    assert!(layout_qualifies(&layouts, &observed_pair));
    // a mono track matches no allowed layout
    let observed_mono = vec![Track { index: 1, channels: 1 }];
    assert!(!layout_qualifies(&layouts, &observed_mono));
    // order matters: the qualification is the exact track list
    let observed_swapped = vec![
        Track { index: 2, channels: 2 },
        Track { index: 1, channels: 6 },
    ];
    assert!(!layout_qualifies(&layouts, &observed_swapped));
}

fn labelled_input(index: u32, label: &str) -> Input {
    Input::Streams {
        id: index,
        path: "input.mxf".to_string(),
        streams: vec![Stream { index, label: Some(label.to_string()) }],
    }
}

fn simple_filter(name: &str, input_label: &str, output_label: &str) -> Filter {
    Filter {
        name: name.to_string(),
        label: None,
        parameters: Vec::new(),
        inputs: Some(vec![FilterInput {
            kind: InputKind::Stream,
            stream_label: input_label.to_string(),
        }]),
        outputs: Some(vec![FilterOutput { stream_label: output_label.to_string() }]),
    }
}

fn metadata_output(label: &str) -> Output {
    Output {
        kind: Some(OutputKind::VideoMetadata),
        keys: vec!["lavfi.scd.time".to_string()],
        stream: Some(label.to_string()),
        path: None,
        streams: Vec::new(),
        parameters: Vec::new(),
    }
}

#[test]
fn setup_accepts_resolvable_labels() {
    let order = Order::new(
        vec![labelled_input(0, "video_input_0")],
        vec![simple_filter("scdet", "video_input_0", "video_output_0")],
        vec![metadata_output("video_output_0")],
    );
    assert!(order.setup().is_ok());
}

#[test]
fn setup_rejects_unresolved_filter_input() {
    let order = Order::new(
        vec![labelled_input(0, "video_input_0")],
        vec![simple_filter("scdet", "video_input_7", "video_output_0")],
        vec![metadata_output("video_output_0")],
    );
    assert!(order.setup().is_err());
}

#[test]
fn setup_rejects_unresolved_output_reference() {
    let order = Order::new(
        vec![labelled_input(0, "video_input_0")],
        vec![simple_filter("scdet", "video_input_0", "video_output_0")],
        vec![metadata_output("somewhere_else")],
    );
    assert!(order.setup().is_err());
}

#[test]
fn scene_create_graph_validates() {
    let params = CheckParameterMap::new();
    let order =
        media_probe::scene_detect::create_graph("input.mxf", vec![0, 2], &params).unwrap();
    assert_eq!(order.inputs.len(), 2);
    assert_eq!(order.filters.len(), 2);
    assert_eq!(order.outputs.len(), 2);
    assert!(order.setup().is_ok());
    // labels carry the stream number
    match &order.inputs[1] {
        Input::Streams { id, streams, .. } => {
            assert_eq!(*id, 2);
            assert_eq!(streams[0].label.as_ref().unwrap(), "video_input_2");
        }
    }
}

#[test]
fn detector_graphs_validate() {
    let params = CheckParameterMap::new();
    let silence =
        media_probe::silence_detect::create_graph("input.mxf", &vec![1], &params).unwrap();
    assert!(silence.setup().is_ok());
    let black =
        media_probe::black_detect::create_graph("input.mxf", &vec![0], &params).unwrap();
    assert!(black.setup().is_ok());
    let crop = media_probe::crop_detect::create_graph("input.mxf", &vec![0], &params).unwrap();
    assert!(crop.setup().is_ok());
    let ocr = media_probe::ocr_detect::create_graph("input.mxf", &vec![0], &params).unwrap();
    assert!(ocr.setup().is_ok());
}
