use capture_device_info::CaptureDeviceResolution;
use capture_device_info::aggregate::aggregate_formats;
use capture_device_info::format::FormatDescriptor;
use capture_device_info::format::FormatKind;
use capture_device_info::format::interpret_format;
use capture_device_info::format::round_centi_rate;

fn descriptor(kind: FormatKind, width: i32, height: i32, ticks: i64) -> FormatDescriptor {
    FormatDescriptor { kind, width, height, avg_time_per_frame: ticks }
}

#[test]
fn rounding_exact_values() {
    assert_eq!(round_centi_rate(166667), 6000);
    assert_eq!(round_centi_rate(333333), 3000);
    assert_eq!(round_centi_rate(333332), 3000);
    assert_eq!(round_centi_rate(333334), 3000);
    assert_eq!(round_centi_rate(400000), 2500);
}

#[test]
fn rounding_half_goes_away_from_zero() {
    // 10^9 / 2*10^9 ticks is exactly 0.5 hundredths: it rounds up to 1.
    assert_eq!(round_centi_rate(2_000_000_000), 1);
    // One tick more and the rate rounds down to zero.
    assert_eq!(round_centi_rate(2_000_000_001), 0);
    // The fastest expressible interval: 10^9 hundredths per second.
    assert_eq!(round_centi_rate(1), 1_000_000_000);
}

#[test]
fn negative_height_yields_absolute_value() {
    let r = interpret_format(&descriptor(FormatKind::VideoInfo, 1920, -1080, 333333)).unwrap();
    assert_eq!(r.height, 1080);
    assert_eq!(r.width, 1920);
}

#[test]
fn negative_width_keeps_its_bit_pattern() {
    let r = interpret_format(&descriptor(FormatKind::VideoInfo2, -1, 480, 333333)).unwrap();
    assert_eq!(r.width, 4294967295);
}

#[test]
fn extreme_negative_dimensions() {
    let r = interpret_format(&descriptor(FormatKind::VideoInfo, i32::MIN, i32::MIN, 333333))
        .unwrap();
    assert_eq!(r.width, 2147483648);
    assert_eq!(r.height, 2147483648);
}

#[test]
fn unrecognized_shape_yields_nothing() {
    assert!(interpret_format(&descriptor(FormatKind::Unrecognized, 1920, 1080, 333333)).is_none());
}

#[test]
fn non_positive_interval_yields_nothing() {
    assert!(interpret_format(&descriptor(FormatKind::VideoInfo, 1920, 1080, 0)).is_none());
    assert!(interpret_format(&descriptor(FormatKind::VideoInfo2, 1920, 1080, -5)).is_none());
}

#[test]
fn extended_shape_is_recognized() {
    let r = interpret_format(&descriptor(FormatKind::VideoInfo2, 1280, 720, 166667)).unwrap();
    assert_eq!(
        r,
        CaptureDeviceResolution { width: 1280, height: 720, frame_rate_centi: 6000 }
    );
}

#[test]
fn aggregation_sorts_by_throughput_descending() {
    let fmts = vec![
        descriptor(FormatKind::VideoInfo, 640, 480, 333333),
        descriptor(FormatKind::VideoInfo, 1920, 1080, 333333),
        descriptor(FormatKind::VideoInfo, 1280, 720, 333333),
    ];
    let out = aggregate_formats(&fmts);
    let products: Vec<u128> = out
        .iter()
        .map(|r| r.width as u128 * r.height as u128 * r.frame_rate_centi as u128)
        .collect();
    for pair in products.windows(2) {
        assert!(pair[0] >= pair[1]);
    }
    assert_eq!(out[0].width, 1920);
    assert_eq!(out[1].width, 1280);
    assert_eq!(out[2].width, 640);
}

#[test]
fn aggregation_keeps_discovery_order_on_equal_throughput() {
    // 100x200 and 200x100 at the same rate have equal ranking products.
    let fmts = vec![
        descriptor(FormatKind::VideoInfo, 100, 200, 333333),
        descriptor(FormatKind::VideoInfo, 200, 100, 333333),
    ];
    let out = aggregate_formats(&fmts);
    assert_eq!(out.len(), 2);
    assert_eq!((out[0].width, out[0].height), (100, 200));
    assert_eq!((out[1].width, out[1].height), (200, 100));
}

#[test]
fn aggregation_drops_duplicates_and_unrecognized() {
    let fmts = vec![
        descriptor(FormatKind::VideoInfo, 1280, 720, 333333),
        descriptor(FormatKind::Unrecognized, 9999, 9999, 1),
        descriptor(FormatKind::VideoInfo2, 1280, 720, 333333),
    ];
    let out = aggregate_formats(&fmts);
    assert_eq!(
        out,
        vec![CaptureDeviceResolution { width: 1280, height: 720, frame_rate_centi: 3000 }]
    );
}

#[test]
fn frame_rate_by_units_reports_hundredths() {
    let r = CaptureDeviceResolution { width: 1, height: 1, frame_rate_centi: 2997 };
    assert_eq!(r.frame_rate_by_units(), 2997);
}

#[test]
fn throughput_is_the_full_product() {
    let r = CaptureDeviceResolution {
        width: 4294967295,
        height: 4294967295,
        frame_rate_centi: 1_000_000_000,
    };
    assert_eq!(
        r.throughput(),
        4294967295u128 * 4294967295u128 * 1_000_000_000u128
    );
}
