//! Assembly of capture device records from a device-source snapshot.
//!
//! A platform binding walks the operating system's device source and writes
//! down, as plain values, everything it was told: per device the property
//! values it could read, and per pin the direction and the raw format
//! descriptors offered. This module turns such a snapshot into the public
//! record list, with the fallback policy for the naming fields and the
//! all-or-nothing error policy of the enumeration call.

use vstd::prelude::*;

use crate::CaptureDeviceInfo;
use crate::CaptureDevicePosition;
use crate::CaptureDeviceResolution;
use crate::aggregate::aggregate_formats;
use crate::aggregate::aggregated;
use crate::format::FormatDescriptor;

verus! {

/// The property values read from one device's property bag. A field is
/// `None` when the property is absent or its read failed.
pub struct DeviceProperties {
    /// The "Description" property.
    pub description: Option<String>,
    /// The "FriendlyName" property.
    pub friendly_name: Option<String>,
    /// The "DevicePath" property.
    pub device_path: Option<String>,
}

/// One pin of a device. `formats` is `None` exactly when a platform query on
/// the pin failed hard; for a pin that is not an output pin the descriptors
/// carry no capture data and may be left empty.
pub struct PinProbe {
    /// Whether the pin is classified as an output pin.
    pub is_output: bool,
    /// The format descriptors the pin offers, in the order offered.
    pub formats: Option<Vec<FormatDescriptor>>,
}

/// Everything the platform reported about one device handle. `properties`
/// is `None` when binding to the device's property storage failed; `pins` is
/// `None` when binding to its filter or enumerating its pins failed.
pub struct DeviceProbe {
    /// The property values of the device.
    pub properties: Option<DeviceProperties>,
    /// The pins of the device, in enumeration order.
    pub pins: Option<Vec<PinProbe>>,
}

/// What the platform's device source yielded for one enumeration session.
pub enum DeviceSourceSnapshot {
    /// The enumeration session or the device enumerator could not be created.
    SessionUnavailable,
    /// The platform signalled that the video-capture category is missing.
    CategoryMissing,
    /// The devices of the category, in the platform's order (possibly none).
    Devices(Vec<DeviceProbe>),
}

/// Why an enumeration call failed. The whole call is all-or-nothing: a
/// failure on any device discards every record gathered before it.
#[derive(Debug, Clone, Copy, PartialEq, Eq, Structural)]
pub enum EnumerationError {
    /// The enumeration session or the device enumerator could not be created.
    ActivationFailed,
    /// The platform signalled an empty or missing device category.
    NoDevicesFound,
    /// A query on a device, its pins or a pin's formats failed.
    DeviceQueryFailed,
    /// Both the "Description" and the "FriendlyName" reads failed.
    DescriptionUnavailable,
}

/// The observable content of `DeviceProperties`.
pub ghost struct DevicePropertiesView {
    /// The "Description" property.
    pub description: Option<Seq<char>>,
    /// The "FriendlyName" property.
    pub friendly_name: Option<Seq<char>>,
    /// The "DevicePath" property.
    pub device_path: Option<Seq<char>>,
}

/// The observable content of `PinProbe`.
pub ghost struct PinProbeView {
    /// Whether the pin is classified as an output pin.
    pub is_output: bool,
    /// The format descriptors the pin offers.
    pub formats: Option<Seq<FormatDescriptor>>,
}

/// The observable content of `DeviceProbe`.
pub ghost struct DeviceProbeView {
    /// The property values of the device.
    pub properties: Option<DevicePropertiesView>,
    /// The pins of the device.
    pub pins: Option<Seq<PinProbeView>>,
}

impl View for DeviceProperties {
    type V = DevicePropertiesView;

    open spec fn view(&self) -> DevicePropertiesView {
        DevicePropertiesView {
            description: match self.description {
                Some(s) => Some(s@),
                None => None,
            },
            friendly_name: match self.friendly_name {
                Some(s) => Some(s@),
                None => None,
            },
            device_path: match self.device_path {
                Some(s) => Some(s@),
                None => None,
            },
        }
    }
}

impl View for PinProbe {
    type V = PinProbeView;

    open spec fn view(&self) -> PinProbeView {
        PinProbeView {
            is_output: self.is_output,
            formats: match self.formats {
                Some(f) => Some(f@),
                None => None,
            },
        }
    }
}

impl View for DeviceProbe {
    type V = DeviceProbeView;

    open spec fn view(&self) -> DeviceProbeView {
        DeviceProbeView {
            properties: match self.properties {
                Some(p) => Some(p@),
                None => None,
            },
            pins: match self.pins {
                Some(v) => Some(v@.map_values(|pin: PinProbe| pin@)),
                None => None,
            },
        }
    }
}

/// The observable content of every device of a snapshot, in order.
pub open spec fn views_of(ds: Seq<DeviceProbe>) -> Seq<DeviceProbeView> {
    ds.map_values(|p: DeviceProbe| p@)
}

/// Whether a platform query failed on some pin of the run.
pub open spec fn pins_failed(pins: Seq<PinProbeView>) -> bool {
    exists|i: int| 0 <= i < pins.len() && (#[trigger] pins[i].formats) is None
}

/// The format descriptors of a device in traversal order: the runs offered
/// by its output pins, concatenated. Pins that are not output pins carry no
/// capture data and contribute nothing.
pub open spec fn output_formats(pins: Seq<PinProbeView>) -> Seq<FormatDescriptor>
    decreases pins.len(),
{
    if pins.len() == 0 {
        Seq::empty()
    } else {
        let rest = output_formats(pins.drop_last());
        if pins.last().is_output {
            rest + match pins.last().formats {
                Some(f) => f,
                None => Seq::empty(),
            }
        } else {
            rest
        }
    }
}

/// The description a record carries: the "Description" property verbatim
/// when present, else the "FriendlyName" property.
pub open spec fn description_of(props: DevicePropertiesView) -> Seq<char>
    recommends
        props.description is Some || props.friendly_name is Some,
{
    match props.description {
        Some(d) => d,
        None => match props.friendly_name {
            Some(f) => f,
            None => Seq::empty(),
        },
    }
}

/// The identity a record carries: the "DevicePath" property when present,
/// else the empty string — a missing identity is not an error.
pub open spec fn name_of(props: DevicePropertiesView) -> Seq<char> {
    match props.device_path {
        Some(p) => p,
        None => Seq::empty(),
    }
}

/// The error, if any, one device produces, checked in the order the platform
/// is queried: the property storage, then the description fallback, then the
/// pins and their formats.
pub open spec fn probe_error(p: DeviceProbeView) -> Option<EnumerationError> {
    match p.properties {
        None => Some(EnumerationError::DeviceQueryFailed),
        Some(props) => {
            if props.description is None && props.friendly_name is None {
                Some(EnumerationError::DescriptionUnavailable)
            } else {
                match p.pins {
                    None => Some(EnumerationError::DeviceQueryFailed),
                    Some(pins) => if pins_failed(pins) {
                        Some(EnumerationError::DeviceQueryFailed)
                    } else {
                        None
                    },
                }
            }
        },
    }
}

/// The error of the first failing device of a snapshot, in device order.
pub open spec fn first_error(ds: Seq<DeviceProbeView>) -> Option<EnumerationError>
    decreases ds.len(),
{
    if ds.len() == 0 {
        None
    } else {
        match first_error(ds.drop_last()) {
            Some(e) => Some(e),
            None => probe_error(ds.last()),
        }
    }
}

/// Capture device information assembled from one device of the snapshot.
#[derive(Debug)]
pub struct DirectShowCaptureDevice {
    /// The platform identity of the device; possibly empty.
    pub name: String,
    /// The human-readable description of the device.
    pub description: String,
    /// The deduplicated resolutions, ranked by throughput in descending order.
    pub resolution: Vec<CaptureDeviceResolution>,
}

/// Whether an assembled record carries exactly what the model prescribes for
/// a device's observable content.
pub open spec fn record_matches(p: DeviceProbeView, r: DirectShowCaptureDevice) -> bool {
    &&& p.properties is Some
    &&& p.pins is Some
    &&& r.name@ == name_of(p.properties.unwrap())
    &&& r.description@ == description_of(p.properties.unwrap())
    &&& r.resolution@ == aggregated(output_formats(p.pins.unwrap()))
}

impl CaptureDeviceInfo for DirectShowCaptureDevice {
    fn name(&self) -> (r: &str)
        ensures
            r@ == self.name@,
    {
        self.name.as_str()
    }

    fn description(&self) -> (r: &str)
        ensures
            r@ == self.description@,
    {
        self.description.as_str()
    }

    fn orientation(&self) -> (r: Option<i32>)
        ensures
            r is None,
    {
        None
    }

    fn position(&self) -> (r: Option<CaptureDevicePosition>)
        ensures
            r is None,
    {
        None
    }

    fn resolutions(&self) -> (r: &[CaptureDeviceResolution])
        ensures
            r@ == self.resolution@,
    {
        self.resolution.as_slice()
    }
}

/// Resolves the mandatory description of a device: the "Description"
/// property is used verbatim when present — "FriendlyName" then plays no
/// part; with it absent "FriendlyName" is used; with neither, the device
/// fails with `DescriptionUnavailable`.
pub fn resolve_description(props: &DeviceProperties) -> (r: Result<String, EnumerationError>)
    ensures
        match r {
            Ok(s) => (props.description is Some || props.friendly_name is Some) && s@
                == description_of(props@),
            Err(e) => props.description is None && props.friendly_name is None && e
                == EnumerationError::DescriptionUnavailable,
        },
{
    match &props.description {
        Some(d) => Ok(d.clone()),
        None => match &props.friendly_name {
            Some(f) => Ok(f.clone()),
            None => Err(EnumerationError::DescriptionUnavailable),
        },
    }
}

/// Resolves the identity field of a device: the "DevicePath" property when
/// present, else the empty string.
pub fn resolve_name(props: &DeviceProperties) -> (r: String)
    ensures
        r@ == name_of(props@),
{
    match &props.device_path {
        Some(p) => p.clone(),
        None => String::new(),
    }
}

/// Gathers the format descriptors of a device's output pins in traversal
/// order; a pin on which a platform query failed aborts the device.
pub fn collect_output_formats(pins: &Vec<PinProbe>) -> (r: Result<
    Vec<FormatDescriptor>,
    EnumerationError,
>)
    ensures
        match r {
            Ok(f) => !pins_failed(pins@.map_values(|pin: PinProbe| pin@)) && f@ == output_formats(
                pins@.map_values(|pin: PinProbe| pin@),
            ),
            Err(e) => pins_failed(pins@.map_values(|pin: PinProbe| pin@)) && e
                == EnumerationError::DeviceQueryFailed,
        },
{
    let ghost pv = pins@.map_values(|pin: PinProbe| pin@);
    let mut out: Vec<FormatDescriptor> = Vec::new();
    let mut i: usize = 0;
    while i < pins.len()
        invariant
            0 <= i <= pins@.len(),
            pv == pins@.map_values(|pin: PinProbe| pin@),
            forall|k: int| 0 <= k < i ==> (#[trigger] pv[k].formats) is Some,
            out@ == output_formats(pv.take(i as int)),
        decreases pins@.len() - i,
    {
        let ghost prefix = pv.take(i as int);
        let pin = &pins[i];
        match &pin.formats {
            None => {
                proof {
                    assert(pv[i as int].formats is None);
                }
                return Err(EnumerationError::DeviceQueryFailed);
            },
            Some(f) => {
                if pin.is_output {
                    let ghost before = out@;
                    let mut j: usize = 0;
                    while j < f.len()
                        invariant
                            0 <= j <= f@.len(),
                            out@ == before + f@.take(j as int),
                        decreases f@.len() - j,
                    {
                        out.push(f[j]);
                        proof {
                            assert(before + f@.take(j + 1) =~= (before + f@.take(j as int)).push(
                                f@[j as int],
                            ));
                        }
                        j += 1;
                    }
                    proof {
                        assert(f@.take(f@.len() as int) =~= f@);
                    }
                }
            },
        }
        proof {
            assert(pv.take(i + 1).drop_last() =~= prefix);
            assert(pv.take(i + 1).last() == pv[i as int]);
        }
        i += 1;
    }
    proof {
        assert(pv.take(pv.len() as int) =~= pv);
    }
    Ok(out)
}

/// Assembles the public record of one device from its probe: resolves the
/// description with its fallback and the identity with its default, and
/// aggregates the interpreted formats of the output pins. Any failed
/// platform query aborts the device with the error the model prescribes.
pub fn assemble_device(probe: &DeviceProbe) -> (r: Result<
    DirectShowCaptureDevice,
    EnumerationError,
>)
    ensures
        match probe_error(probe@) {
            Some(e) => r == Err::<DirectShowCaptureDevice, EnumerationError>(e),
            None => match r {
                Ok(dev) => record_matches(probe@, dev),
                Err(_) => false,
            },
        },
{
    let props = match &probe.properties {
        Some(p) => p,
        None => {
            return Err(EnumerationError::DeviceQueryFailed);
        },
    };
    let description = match resolve_description(props) {
        Ok(d) => d,
        Err(e) => {
            return Err(e);
        },
    };
    let name = resolve_name(props);
    let pins = match &probe.pins {
        Some(p) => p,
        None => {
            return Err(EnumerationError::DeviceQueryFailed);
        },
    };
    let fmts = match collect_output_formats(pins) {
        Ok(f) => f,
        Err(e) => {
            return Err(e);
        },
    };
    let resolution = aggregate_formats(&fmts);
    Ok(DirectShowCaptureDevice { name, description, resolution })
}

/// Record invariant law: any record carrying what the model prescribes for
/// a device holds a resolution list with no repeated entry, ranked by
/// capture throughput in descending order.
pub proof fn lemma_record_resolutions_invariant(p: DeviceProbeView, r: DirectShowCaptureDevice)
    requires
        record_matches(p, r),
    ensures
        crate::aggregate::ranked(r.resolution@),
        crate::aggregate::distinct(r.resolution@),
{
    crate::aggregate::lemma_aggregated_ranked(output_formats(p.pins.unwrap()));
    crate::aggregate::lemma_aggregated_distinct(output_formats(p.pins.unwrap()));
}

/// All-or-nothing law: a snapshot's enumeration succeeds exactly when every
/// one of its devices succeeds — no failing device is silently omitted and
/// no error is invented.
pub proof fn lemma_success_iff_every_device_ok(ds: Seq<DeviceProbeView>)
    ensures
        first_error(ds) is None <==> (forall|i: int|
            0 <= i < ds.len() ==> (#[trigger] probe_error(ds[i])) is None),
    decreases ds.len(),
{
    if ds.len() == 0 {
    } else {
        lemma_success_iff_every_device_ok(ds.drop_last());
        assert(forall|i: int| 0 <= i < ds.len() - 1 ==> ds.drop_last()[i] == ds[i]);
        assert(ds.last() == ds[ds.len() - 1]);
    }
}

/// Fallback law: with the "Description" property present it is used
/// verbatim, and the record does not depend on "FriendlyName" at all; with
/// it absent, "FriendlyName" is used; with both absent, the device fails
/// with `DescriptionUnavailable` whatever its pins hold.
pub proof fn lemma_description_fallback(
    props: DevicePropertiesView,
    other: Option<Seq<char>>,
    pins: Option<Seq<PinProbeView>>,
)
    ensures
        props.description is Some ==> description_of(props) == props.description.unwrap(),
        props.description is Some ==> description_of(
            (DevicePropertiesView {
                description: props.description,
                friendly_name: other,
                device_path: props.device_path,
            }),
        ) == description_of(props),
        props.description is None && props.friendly_name is Some ==> description_of(props)
            == props.friendly_name.unwrap(),
        props.description is None && props.friendly_name is None ==> probe_error(
            (DeviceProbeView { properties: Some(props), pins }),
        ) == Some(EnumerationError::DescriptionUnavailable),
{
}

/// Idempotence law: what a record carries is a function of the device's
/// observable content alone, so two enumerations over an unchanged device
/// set yield the same error, or record lists equal field for field.
pub proof fn lemma_enumeration_idempotent(
    a: Seq<DeviceProbeView>,
    b: Seq<DeviceProbeView>,
    i: int,
    ra: DirectShowCaptureDevice,
    rb: DirectShowCaptureDevice,
)
    requires
        a == b,
        0 <= i < a.len(),
        record_matches(a[i], ra),
        record_matches(b[i], rb),
    ensures
        first_error(a) == first_error(b),
        ra.name@ == rb.name@,
        ra.description@ == rb.description@,
        ra.resolution@ == rb.resolution@,
{
}

/// If no device before index `i` fails and device `i` fails, the whole
/// snapshot fails with that device's error.
proof fn lemma_first_error_at(ds: Seq<DeviceProbeView>, i: int)
    requires
        0 <= i < ds.len(),
        first_error(ds.take(i)) is None,
        probe_error(ds[i]) is Some,
    ensures
        first_error(ds) == probe_error(ds[i]),
    decreases ds.len(),
{
    if i == ds.len() - 1 {
        assert(ds.drop_last() =~= ds.take(i));
    } else {
        assert(ds.drop_last().take(i) =~= ds.take(i));
        lemma_first_error_at(ds.drop_last(), i);
    }
}

/// Enumerates the capture devices of a snapshot: either the complete record
/// list, one record per device in the platform's order, or the first typed
/// failure — never a partial list.
pub fn capture_devices(source: &DeviceSourceSnapshot) -> (r: Result<
    Vec<DirectShowCaptureDevice>,
    EnumerationError,
>)
    ensures
        match *source {
            DeviceSourceSnapshot::SessionUnavailable => r == Err::<
                Vec<DirectShowCaptureDevice>,
                EnumerationError,
            >(EnumerationError::ActivationFailed),
            DeviceSourceSnapshot::CategoryMissing => r == Err::<
                Vec<DirectShowCaptureDevice>,
                EnumerationError,
            >(EnumerationError::NoDevicesFound),
            DeviceSourceSnapshot::Devices(ds) => match first_error(views_of(ds@)) {
                Some(e) => r == Err::<Vec<DirectShowCaptureDevice>, EnumerationError>(e),
                None => match r {
                    Ok(devs) => devs@.len() == ds@.len() && (forall|k: int|
                        0 <= k < ds@.len() ==> record_matches(
                            views_of(ds@)[k],
                            #[trigger] devs@[k],
                        )),
                    Err(_) => false,
                },
            },
        },
{
    match source {
        DeviceSourceSnapshot::SessionUnavailable => Err(EnumerationError::ActivationFailed),
        DeviceSourceSnapshot::CategoryMissing => Err(EnumerationError::NoDevicesFound),
        DeviceSourceSnapshot::Devices(ds) => {
            let ghost dv = views_of(ds@);
            let mut out: Vec<DirectShowCaptureDevice> = Vec::new();
            let mut i: usize = 0;
            while i < ds.len()
                invariant
                    *source == DeviceSourceSnapshot::Devices(*ds),
                    0 <= i <= ds@.len(),
                    dv == views_of(ds@),
                    dv.len() == ds@.len(),
                    first_error(dv.take(i as int)) is None,
                    out@.len() == i,
                    forall|k: int| 0 <= k < i ==> record_matches(dv[k], #[trigger] out@[k]),
                decreases ds@.len() - i,
            {
                let ghost prefix = dv.take(i as int);
                match assemble_device(&ds[i]) {
                    Ok(dev) => {
                        out.push(dev);
                    },
                    Err(e) => {
                        proof {
                            lemma_first_error_at(dv, i as int);
                        }
                        return Err(e);
                    },
                }
                proof {
                    assert(dv.take(i + 1).drop_last() =~= prefix);
                    assert(dv.take(i + 1).last() == dv[i as int]);
                }
                i += 1;
            }
            proof {
                assert(dv.take(dv.len() as int) =~= dv);
            }
            Ok(out)
        },
    }
}

} // verus!
