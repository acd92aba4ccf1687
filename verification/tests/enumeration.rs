use capture_device_info::CaptureDeviceInfo;
use capture_device_info::CaptureDeviceResolution;
use capture_device_info::dshow::DeviceProbe;
use capture_device_info::dshow::DeviceProperties;
use capture_device_info::dshow::DeviceSourceSnapshot;
use capture_device_info::dshow::EnumerationError;
use capture_device_info::dshow::PinProbe;
use capture_device_info::dshow::capture_devices;
use capture_device_info::format::FormatDescriptor;
use capture_device_info::format::FormatKind;

fn video_info(width: i32, height: i32, ticks: i64) -> FormatDescriptor {
    FormatDescriptor { kind: FormatKind::VideoInfo, width, height, avg_time_per_frame: ticks }
}

fn simple_device(formats: Vec<FormatDescriptor>) -> DeviceProbe {
    DeviceProbe {
        properties: Some(DeviceProperties {
            description: Some(String::from("Integrated Camera")),
            friendly_name: Some(String::from("Camera")),
            device_path: Some(String::from("\\\\?\\usb#vid_0000")),
        }),
        pins: Some(vec![PinProbe { is_output: true, formats: Some(formats) }]),
    }
}

#[test]
fn one_device_two_rates_ranked() {
    let snap = DeviceSourceSnapshot::Devices(vec![simple_device(vec![
        video_info(1920, 1080, 166667),
        video_info(1920, 1080, 333333),
    ])]);
    let devs = capture_devices(&snap).unwrap();
    assert_eq!(devs.len(), 1);
    assert_eq!(
        devs[0].resolution,
        vec![
            CaptureDeviceResolution { width: 1920, height: 1080, frame_rate_centi: 6000 },
            CaptureDeviceResolution { width: 1920, height: 1080, frame_rate_centi: 3000 },
        ]
    );
}

#[test]
fn rates_equal_after_rounding_collapse() {
    let snap = DeviceSourceSnapshot::Devices(vec![simple_device(vec![
        video_info(1280, 720, 333332),
        video_info(1280, 720, 333334),
    ])]);
    let devs = capture_devices(&snap).unwrap();
    assert_eq!(
        devs[0].resolution,
        vec![CaptureDeviceResolution { width: 1280, height: 720, frame_rate_centi: 3000 }]
    );
}

#[test]
fn missing_category_is_no_devices_found() {
    let snap = DeviceSourceSnapshot::CategoryMissing;
    assert_eq!(capture_devices(&snap).unwrap_err(), EnumerationError::NoDevicesFound);
}

#[test]
fn session_unavailable_is_activation_failed() {
    let snap = DeviceSourceSnapshot::SessionUnavailable;
    assert_eq!(capture_devices(&snap).unwrap_err(), EnumerationError::ActivationFailed);
}

#[test]
fn friendly_name_fallback() {
    let snap = DeviceSourceSnapshot::Devices(vec![DeviceProbe {
        properties: Some(DeviceProperties {
            description: None,
            friendly_name: Some(String::from("USB Camera")),
            device_path: None,
        }),
        pins: Some(vec![]),
    }]);
    let devs = capture_devices(&snap).unwrap();
    assert_eq!(devs[0].description, "USB Camera");
    assert_eq!(devs[0].name, "");
}

#[test]
fn description_preferred_over_friendly_name() {
    let snap = DeviceSourceSnapshot::Devices(vec![DeviceProbe {
        properties: Some(DeviceProperties {
            description: Some(String::from("Front Camera")),
            friendly_name: Some(String::from("USB Camera")),
            device_path: Some(String::from("path-0")),
        }),
        pins: Some(vec![]),
    }]);
    let devs = capture_devices(&snap).unwrap();
    assert_eq!(devs[0].description, "Front Camera");
    assert_eq!(devs[0].name, "path-0");
}

#[test]
fn both_name_properties_missing_fails() {
    let snap = DeviceSourceSnapshot::Devices(vec![DeviceProbe {
        properties: Some(DeviceProperties {
            description: None,
            friendly_name: None,
            device_path: Some(String::from("path-0")),
        }),
        pins: Some(vec![]),
    }]);
    assert_eq!(capture_devices(&snap).unwrap_err(), EnumerationError::DescriptionUnavailable);
}

#[test]
fn missing_property_storage_fails() {
    let snap = DeviceSourceSnapshot::Devices(vec![DeviceProbe { properties: None, pins: Some(vec![]) }]);
    assert_eq!(capture_devices(&snap).unwrap_err(), EnumerationError::DeviceQueryFailed);
}

#[test]
fn missing_pins_fails() {
    let mut probe = simple_device(vec![]);
    probe.pins = None;
    let snap = DeviceSourceSnapshot::Devices(vec![probe]);
    assert_eq!(capture_devices(&snap).unwrap_err(), EnumerationError::DeviceQueryFailed);
}

#[test]
fn failed_pin_query_fails_whole_call() {
    let mut probe = simple_device(vec![]);
    probe.pins = Some(vec![PinProbe { is_output: true, formats: None }]);
    let snap = DeviceSourceSnapshot::Devices(vec![probe]);
    assert_eq!(capture_devices(&snap).unwrap_err(), EnumerationError::DeviceQueryFailed);
}

#[test]
fn failing_device_discards_earlier_records() {
    let good = simple_device(vec![video_info(640, 480, 333333)]);
    let bad = DeviceProbe { properties: None, pins: None };
    let snap = DeviceSourceSnapshot::Devices(vec![good, bad]);
    assert_eq!(capture_devices(&snap).unwrap_err(), EnumerationError::DeviceQueryFailed);
}

#[test]
fn empty_device_list_is_ok_and_empty() {
    let snap = DeviceSourceSnapshot::Devices(vec![]);
    assert_eq!(capture_devices(&snap).unwrap().len(), 0);
}

#[test]
fn device_order_is_preserved() {
    let mut first = simple_device(vec![]);
    first.properties.as_mut().unwrap().description = Some(String::from("A"));
    let mut second = simple_device(vec![]);
    second.properties.as_mut().unwrap().description = Some(String::from("B"));
    let snap = DeviceSourceSnapshot::Devices(vec![first, second]);
    let devs = capture_devices(&snap).unwrap();
    assert_eq!(devs[0].description, "A");
    assert_eq!(devs[1].description, "B");
}

#[test]
fn non_output_pins_are_skipped() {
    let probe = DeviceProbe {
        properties: Some(DeviceProperties {
            description: Some(String::from("Cam")),
            friendly_name: None,
            device_path: None,
        }),
        pins: Some(vec![
            PinProbe { is_output: false, formats: Some(vec![video_info(640, 480, 333333)]) },
            PinProbe { is_output: true, formats: Some(vec![video_info(1920, 1080, 333333)]) },
        ]),
    };
    let snap = DeviceSourceSnapshot::Devices(vec![probe]);
    let devs = capture_devices(&snap).unwrap();
    assert_eq!(
        devs[0].resolution,
        vec![CaptureDeviceResolution { width: 1920, height: 1080, frame_rate_centi: 3000 }]
    );
}

#[test]
fn repeated_enumeration_is_idempotent() {
    let make = || {
        DeviceSourceSnapshot::Devices(vec![simple_device(vec![
            video_info(1920, 1080, 166667),
            video_info(640, 480, 333333),
        ])])
    };
    let a = capture_devices(&make()).unwrap();
    let b = capture_devices(&make()).unwrap();
    assert_eq!(a.len(), b.len());
    assert_eq!(a[0].name, b[0].name);
    assert_eq!(a[0].description, b[0].description);
    assert_eq!(a[0].resolution, b[0].resolution);
}

#[test]
fn trait_getters_report_record_fields() {
    let snap = DeviceSourceSnapshot::Devices(vec![simple_device(vec![video_info(
        1280, 720, 333333,
    )])]);
    let devs = capture_devices(&snap).unwrap();
    let dev: &dyn CaptureDeviceInfo = &devs[0];
    assert_eq!(dev.name(), "\\\\?\\usb#vid_0000");
    assert_eq!(dev.description(), "Integrated Camera");
    assert_eq!(dev.orientation(), None);
    assert_eq!(dev.position(), None);
    assert_eq!(
        dev.resolutions(),
        &[CaptureDeviceResolution { width: 1280, height: 720, frame_rate_centi: 3000 }]
    );
}
