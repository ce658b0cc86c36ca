//! The devices and tracking origins of a session, and the lookups that the
//! calibration methods make in them.
use vstd::prelude::*;
use crate::sampled::HandOff;

verus! {

/// A tracked device, as the runtime reported it at session start.
pub struct Device {
    pub name: String,
    /// Stable unique key of the device.
    pub serial: String,
    pub index: u32,
    /// Id of the tracking origin the device belongs to.
    pub tracking_origin: u32,
}

/// An independently tracked coordinate frame.
pub struct TrackingOrigin {
    pub id: u32,
    pub name: String,
}

/// What the runtime reported at session start. Tracking origin ids are their
/// positions in `tracking_origins`.
pub struct CalibratorData {
    pub tracking_origins: Vec<TrackingOrigin>,
    pub devices: Vec<Device>,
}

/// How a saved calibration's keys and offset are to be read.
#[derive(Clone, Copy, PartialEq, Eq, Structural, Debug)]
pub enum OffsetType {
    /// Used for one-shot calibration: the keys are tracking origin names.
    TrackingOrigin,
    /// Used for offset/continuous mode: the keys are device serials.
    Device,
}

/// A calibration as it is persisted, with an offset of type `T`.
pub struct SavedCalibration<T> {
    pub offset_type: OffsetType,
    pub src: String,
    pub dst: String,
    pub offset: T,
}

/// Why a device's tracking origin could not be found.
#[derive(Clone, Copy, PartialEq, Eq, Structural, Debug)]
pub enum LookupError {
    NoSuchDevice(usize),
    NoSuchTrackingOrigin(u32),
}

/// Why a pair of devices cannot be calibrated against each other.
#[derive(Clone, Copy, PartialEq, Eq, Structural, Debug)]
pub enum SelectError {
    NoSuchSource,
    NoSuchDestination,
    /// Both devices belong to one tracking origin: there is nothing to align.
    SameTrackingOrigin,
}

/// What resuming a saved calibration amounts to.
#[derive(Clone, Copy, PartialEq, Eq, Structural, Debug)]
pub enum ResumePlan {
    /// Apply the saved offset once to tracking origin `dst`, composed with
    /// the current offset of origin `src` (identity when it is absent).
    ApplyOnce { src: Option<usize>, dst: usize },
    /// Start the continuous maintainer on these two devices.
    Maintain(HandOff),
}

/// Why a saved calibration cannot be resumed.
#[derive(Clone, Copy, PartialEq, Eq, Structural, Debug)]
pub enum ResumeError {
    NoSuchTrackingOrigin,
    NoSuchSourceDevice,
    NoSuchDestinationDevice,
}

/// `i` is the first position in `devs` of a device with this serial.
pub open spec fn first_serial(devs: Seq<Device>, serial: Seq<char>, i: int) -> bool {
    0 <= i < devs.len() && devs[i].serial@ == serial && forall|j: int|
        0 <= j < i ==> (#[trigger] devs[j]).serial@ != serial
}

/// The position of the first device with this serial, if there is one.
pub open spec fn device_position(devs: Seq<Device>, serial: Seq<char>) -> Option<usize> {
    if exists|i: int| first_serial(devs, serial, i) {
        Some((choose|i: int| first_serial(devs, serial, i)) as usize)
    } else {
        None
    }
}

/// `i` is the first position in `origins` of an origin with this name.
pub open spec fn first_name(origins: Seq<TrackingOrigin>, name: Seq<char>, i: int) -> bool {
    0 <= i < origins.len() && origins[i].name@ == name && forall|j: int|
        0 <= j < i ==> (#[trigger] origins[j]).name@ != name
}

/// The position of the first tracking origin with this name, if there is one.
pub open spec fn origin_position(origins: Seq<TrackingOrigin>, name: Seq<char>) -> Option<usize> {
    if exists|i: int| first_name(origins, name, i) {
        Some((choose|i: int| first_name(origins, name, i)) as usize)
    } else {
        None
    }
}

/// The result of `select_pair` on serials `src` and `dst`.
pub open spec fn selected_pair(devs: Seq<Device>, src: Seq<char>, dst: Seq<char>) -> Result<
    (usize, usize),
    SelectError,
> {
    match device_position(devs, src) {
        None => Err(SelectError::NoSuchSource),
        Some(a) => match device_position(devs, dst) {
            None => Err(SelectError::NoSuchDestination),
            Some(b) => if devs[a as int].tracking_origin == devs[b as int].tracking_origin {
                Err(SelectError::SameTrackingOrigin)
            } else {
                Ok((a, b))
            },
        },
    }
}

/// The result of `plan_resume` for a record of this kind and these keys.
pub open spec fn resume_plan(
    origins: Seq<TrackingOrigin>,
    devs: Seq<Device>,
    kind: OffsetType,
    src: Seq<char>,
    dst: Seq<char>,
) -> Result<ResumePlan, ResumeError> {
    match kind {
        OffsetType::TrackingOrigin => match origin_position(origins, dst) {
            None => Err(ResumeError::NoSuchTrackingOrigin),
            Some(d) => Ok(ResumePlan::ApplyOnce { src: origin_position(origins, src), dst: d }),
        },
        OffsetType::Device => match device_position(devs, src) {
            None => Err(ResumeError::NoSuchSourceDevice),
            Some(a) => match device_position(devs, dst) {
                None => Err(ResumeError::NoSuchDestinationDevice),
                Some(b) => Ok(ResumePlan::Maintain(HandOff { device_a: a, device_b: b })),
            },
        },
    }
}

fn position_by_serial(devs: &Vec<Device>, key: &String) -> (r: Option<usize>)
    ensures
        r == device_position(devs@, key@),
        r is Some ==> r.unwrap() < devs@.len() && devs@[r.unwrap() as int].serial@ == key@,
{
    let mut i: usize = 0;
    while i < devs.len()
        invariant
            i <= devs@.len(),
            forall|j: int| 0 <= j < i ==> (#[trigger] devs@[j]).serial@ != key@,
        decreases devs@.len() - i,
    {
        if devs[i].serial == *key {
            assert(first_serial(devs@, key@, i as int));
            let ghost c = choose|c: int| first_serial(devs@, key@, c);
            assert(c == i) by {
                if c < i {
                    assert(devs@[c].serial@ != key@);
                } else if c > i {
                    assert(devs@[i as int].serial@ != key@);
                }
            }
            return Some(i);
        }
        i = i + 1;
    }
    None
}

fn position_by_name(origins: &Vec<TrackingOrigin>, key: &String) -> (r: Option<usize>)
    ensures
        r == origin_position(origins@, key@),
{
    let mut i: usize = 0;
    while i < origins.len()
        invariant
            i <= origins@.len(),
            forall|j: int| 0 <= j < i ==> (#[trigger] origins@[j]).name@ != key@,
        decreases origins@.len() - i,
    {
        if origins[i].name == *key {
            assert(first_name(origins@, key@, i as int));
            let ghost c = choose|c: int| first_name(origins@, key@, c);
            assert(c == i) by {
                if c < i {
                    assert(origins@[c].name@ != key@);
                } else if c > i {
                    assert(origins@[i as int].name@ != key@);
                }
            }
            return Some(i);
        }
        i = i + 1;
    }
    None
}

impl CalibratorData {
    /// The position of the first device with this serial.
    pub fn find_device(&self, serial: &str) -> (r: Option<usize>)
        ensures
            r == device_position(self.devices@, serial@),
            r is Some ==> r.unwrap() < self.devices@.len() && self.devices@[r.unwrap() as int].serial@
                == serial@,
            r is None ==> forall|j: int|
                0 <= j < self.devices@.len() ==> (#[trigger] self.devices@[j]).serial@
                    != serial@,
    {
        let key = serial.to_owned();
        let r = position_by_serial(&self.devices, &key);
        proof {
            if r is None {
                assert forall|j: int| 0 <= j < self.devices@.len() implies (
                #[trigger] self.devices@[j]).serial@ != serial@ by {
                    if self.devices@[j].serial@ == serial@ {
                        lemma_some_first_serial(self.devices@, serial@, j);
                    }
                }
            }
        }
        r
    }

    /// The position in `tracking_origins` of the origin of device `device`.
    pub fn get_device_origin(&self, device: usize) -> (r: Result<usize, LookupError>)
        ensures
            device >= self.devices@.len() ==> r == Err::<usize, LookupError>(
                LookupError::NoSuchDevice(device),
            ),
            device < self.devices@.len() ==> {
                let o = self.devices@[device as int].tracking_origin;
                if (o as int) < self.tracking_origins@.len() {
                    r == Ok::<usize, LookupError>(o as usize)
                } else {
                    r == Err::<usize, LookupError>(LookupError::NoSuchTrackingOrigin(o))
                }
            },
    {
        if device >= self.devices.len() {
            return Err(LookupError::NoSuchDevice(device));
        }
        let o = self.devices[device].tracking_origin;
        if (o as usize) < self.tracking_origins.len() {
            Ok(o as usize)
        } else {
            Err(LookupError::NoSuchTrackingOrigin(o))
        }
    }

    /// Picks the source and destination devices of a calibration by serial:
    /// both must exist and belong to different tracking origins.
    pub fn select_pair(&self, src: &str, dst: &str) -> (r: Result<(usize, usize), SelectError>)
        ensures
            r == selected_pair(self.devices@, src@, dst@),
            r matches Ok((a, b)) ==> a < self.devices@.len() && b < self.devices@.len()
                && self.devices@[a as int].tracking_origin != self.devices@[b as int].tracking_origin,
    {
        let a = match self.find_device(src) {
            None => return Err(SelectError::NoSuchSource),
            Some(a) => a,
        };
        let b = match self.find_device(dst) {
            None => return Err(SelectError::NoSuchDestination),
            Some(b) => b,
        };
        if self.devices[a].tracking_origin == self.devices[b].tracking_origin {
            Err(SelectError::SameTrackingOrigin)
        } else {
            Ok((a, b))
        }
    }

    /// The positions of the devices of tracking origin `id`, in order.
    pub fn devices_of_origin(&self, id: u32) -> (r: Vec<usize>)
        ensures
            forall|k: int|
                0 <= k < r@.len() ==> r@[k] < self.devices@.len() && self.devices@[r@[k] as int].tracking_origin
                    == id,
            forall|k: int, l: int| 0 <= k < l < r@.len() ==> r@[k] < r@[l],
            forall|j: usize|
                j < self.devices@.len() && self.devices@[j as int].tracking_origin == id
                    ==> r@.contains(j),
    {
        let mut r: Vec<usize> = Vec::new();
        let mut i: usize = 0;
        while i < self.devices.len()
            invariant
                i <= self.devices@.len(),
                forall|k: int|
                    0 <= k < r@.len() ==> r@[k] < i && self.devices@[r@[k] as int].tracking_origin
                        == id,
                forall|k: int, l: int| 0 <= k < l < r@.len() ==> r@[k] < r@[l],
                forall|j: usize|
                    j < i && self.devices@[j as int].tracking_origin == id ==> r@.contains(j),
            decreases self.devices@.len() - i,
        {
            if self.devices[i].tracking_origin == id {
                let ghost old_r = r@;
                r.push(i);
                assert forall|j: usize|
                    j <= i && self.devices@[j as int].tracking_origin == id implies r@.contains(j) by {
                    if j == i {
                        assert(r@[old_r.len() as int] == j);
                    } else {
                        assert(old_r.contains(j));
                        let k = choose|k: int| 0 <= k < old_r.len() && old_r[k] == j;
                        assert(r@[k] == j);
                    }
                }
            }
            i = i + 1;
        }
        r
    }

    /// The record that saves `offset` as a calibration from `src` to `dst`:
    /// by tracking origin name or by device serial, as `offset_type` says.
    pub fn calibration_record<T>(&self, src: usize, dst: usize, offset: T, offset_type: OffsetType) -> (r:
        SavedCalibration<T>)
        requires
            offset_type == OffsetType::TrackingOrigin ==> src < self.tracking_origins@.len() && dst
                < self.tracking_origins@.len(),
            offset_type == OffsetType::Device ==> src < self.devices@.len() && dst
                < self.devices@.len(),
        ensures
            r.offset_type == offset_type,
            r.offset == offset,
            offset_type == OffsetType::TrackingOrigin ==> r.src@ == self.tracking_origins@[src as int].name@
                && r.dst@ == self.tracking_origins@[dst as int].name@,
            offset_type == OffsetType::Device ==> r.src@ == self.devices@[src as int].serial@
                && r.dst@ == self.devices@[dst as int].serial@,
    {
        let (s, d) = match offset_type {
            OffsetType::TrackingOrigin => (
                self.tracking_origins[src].name.clone(),
                self.tracking_origins[dst].name.clone(),
            ),
            OffsetType::Device => (self.devices[src].serial.clone(), self.devices[dst].serial.clone()),
        };
        SavedCalibration { offset_type, src: s, dst: d, offset }
    }

    /// What resuming a saved calibration does in this session: for a
    /// tracking origin record, find the destination origin by name (the
    /// source origin may be absent); for a device record, find both devices
    /// by serial.
    pub fn plan_resume<T>(&self, record: &SavedCalibration<T>) -> (r: Result<ResumePlan, ResumeError>)
        ensures
            r == resume_plan(
                self.tracking_origins@,
                self.devices@,
                record.offset_type,
                record.src@,
                record.dst@,
            ),
    {
        match record.offset_type {
            OffsetType::TrackingOrigin => {
                match position_by_name(&self.tracking_origins, &record.dst) {
                    None => Err(ResumeError::NoSuchTrackingOrigin),
                    Some(d) => Ok(
                        ResumePlan::ApplyOnce {
                            src: position_by_name(&self.tracking_origins, &record.src),
                            dst: d,
                        },
                    ),
                }
            },
            OffsetType::Device => {
                match position_by_serial(&self.devices, &record.src) {
                    None => Err(ResumeError::NoSuchSourceDevice),
                    Some(a) => match position_by_serial(&self.devices, &record.dst) {
                        None => Err(ResumeError::NoSuchDestinationDevice),
                        Some(b) => Ok(ResumePlan::Maintain(HandOff { device_a: a, device_b: b })),
                    },
                }
            },
        }
    }
}

/// The serials of a list of strings, as sequences of characters.
pub open spec fn serial_views(v: Seq<String>) -> Seq<Seq<char>> {
    v.map_values(|s: String| s@)
}

/// `x` is the last position of `key` in `xs`.
pub open spec fn last_position(xs: Seq<Seq<char>>, key: Seq<char>, x: int) -> bool {
    0 <= x < xs.len() && xs[x] == key && forall|y: int| x < y < xs.len() ==> #[trigger] xs[y] != key
}

/// Which space goes to device `k`: the last space offered under its serial,
/// unless an earlier device with the same serial took it already.
pub open spec fn space_for(xs: Seq<Seq<char>>, ds: Seq<Seq<char>>, k: int) -> Option<usize> {
    if (forall|j: int| 0 <= j < k ==> #[trigger] ds[j] != ds[k]) && exists|x: int|
        last_position(xs, ds[k], x) {
        Some((choose|x: int| last_position(xs, ds[k], x)) as usize)
    } else {
        None
    }
}

fn last_position_of(xs: &Vec<String>, key: &String) -> (r: Option<usize>)
    ensures
        r matches Some(x) ==> last_position(serial_views(xs@), key@, x as int),
        r is None ==> forall|x: int| 0 <= x < xs@.len() ==> (#[trigger] xs@[x])@ != key@,
{
    let ghost v = serial_views(xs@);
    let mut i: usize = xs.len();
    while i > 0
        invariant
            i <= xs@.len(),
            v == serial_views(xs@),
            forall|y: int| i <= y < xs@.len() ==> (#[trigger] xs@[y])@ != key@,
        decreases i,
    {
        i = i - 1;
        if xs[i] == *key {
            assert forall|y: int| i < y < v.len() implies #[trigger] v[y] != key@ by {
                assert(v[y] == xs@[y]@);
            }
            return Some(i);
        }
    }
    None
}

/// Pairs each device serial with the space offered under it: `spaces[x]` is
/// the serial of space `x`, `devices[k]` that of device `k`. When several
/// spaces share a serial the last one wins; when several devices share one,
/// only the first gets the space.
pub fn match_spaces(spaces: &Vec<String>, devices: &Vec<String>) -> (r: Vec<Option<usize>>)
    ensures
        r@.len() == devices@.len(),
        forall|k: int|
            0 <= k < devices@.len() ==> #[trigger] r@[k] == space_for(
                serial_views(spaces@),
                serial_views(devices@),
                k,
            ),
{
    let ghost xs = serial_views(spaces@);
    let ghost ds = serial_views(devices@);
    let mut r: Vec<Option<usize>> = Vec::new();
    let mut k: usize = 0;
    while k < devices.len()
        invariant
            k <= devices@.len(),
            r@.len() == k,
            xs == serial_views(spaces@),
            ds == serial_views(devices@),
            forall|m: int| 0 <= m < k ==> #[trigger] r@[m] == space_for(xs, ds, m),
        decreases devices@.len() - k,
    {
        let mut taken = false;
        let mut j: usize = 0;
        while j < k
            invariant
                j <= k < devices@.len(),
                ds == serial_views(devices@),
                taken == exists|i: int| 0 <= i < j && #[trigger] ds[i] == ds[k as int],
            decreases k - j,
        {
            if devices[j] == devices[k] {
                assert(ds[j as int] == ds[k as int]);
                taken = true;
            }
            j = j + 1;
        }
        let found = if taken {
            None
        } else {
            last_position_of(spaces, &devices[k])
        };
        proof {
            if taken {
                let i = choose|i: int| 0 <= i < k && #[trigger] ds[i] == ds[k as int];
                assert(!(forall|j: int| 0 <= j < k ==> #[trigger] ds[j] != ds[k as int]));
            } else {
                assert(forall|j: int| 0 <= j < k ==> #[trigger] ds[j] != ds[k as int]);
                assert(ds[k as int] == devices@[k as int]@);
                match found {
                    Some(x) => {
                        let c = choose|c: int| last_position(xs, ds[k as int], c);
                        assert(c == x) by {
                            if c < x {
                                assert(xs[x as int] == ds[k as int]);
                            } else if c > x {
                                assert(xs[c] == ds[k as int]);
                            }
                        }
                    },
                    None => {
                        assert forall|x: int| !last_position(xs, ds[k as int], x) by {
                            if 0 <= x < xs.len() {
                                assert(xs[x] == spaces@[x]@);
                            }
                        }
                    },
                }
            }
        }
        r.push(found);
        k = k + 1;
    }
    r
}

proof fn lemma_some_first_serial(devs: Seq<Device>, serial: Seq<char>, j: int)
    requires
        0 <= j < devs.len(),
        devs[j].serial@ == serial,
    ensures
        exists|i: int| first_serial(devs, serial, i),
    decreases j,
{
    if !first_serial(devs, serial, j) {
        let k = choose|k: int| 0 <= k < j && (#[trigger] devs[k]).serial@ == serial;
        lemma_some_first_serial(devs, serial, k);
    }
}

} // verus!
