//! Audio devices: reconciling the known devices with a fresh enumeration,
//! and choosing devices when the stream restarts.
use vstd::prelude::*;

verus! {

/// What the backend reports about a device.
#[derive(Debug)]
pub struct DeviceInfo {
    pub name: String,
    pub num_channels: u16,
    pub is_default: bool,
}

/// Both descriptions agree in every field.
pub open spec fn same_info(a: DeviceInfo, b: DeviceInfo) -> bool {
    a.name@ == b.name@ && a.num_channels == b.num_channels && a.is_default == b.is_default
}

impl DeviceInfo {
    /// A copy of this description.
    pub fn duplicate(&self) -> (r: DeviceInfo)
        ensures
            r == *self,
    {
        DeviceInfo { name: self.name.clone(), num_channels: self.num_channels, is_default: self.is_default }
    }
}

/// A known input device.
#[derive(Debug)]
pub struct InputDeviceInfo(pub DeviceInfo);

/// A known output device.
#[derive(Debug)]
pub struct OutputDeviceInfo(pub DeviceInfo);

impl InputDeviceInfo {
    /// The device's name.
    pub fn name(&self) -> (r: &String)
        ensures
            r == &self.0.name,
    {
        &self.0.name
    }

    /// The device's channel count.
    pub fn num_channels(&self) -> (r: u16)
        ensures
            r == self.0.num_channels,
    {
        self.0.num_channels
    }

    /// Whether the device is the system default.
    pub fn is_default(&self) -> (r: bool)
        ensures
            r == self.0.is_default,
    {
        self.0.is_default
    }
}

impl OutputDeviceInfo {
    /// The device's name.
    pub fn name(&self) -> (r: &String)
        ensures
            r == &self.0.name,
    {
        &self.0.name
    }

    /// The device's channel count.
    pub fn num_channels(&self) -> (r: u16)
        ensures
            r == self.0.num_channels,
    {
        self.0.num_channels
    }

    /// Whether the device is the system default.
    pub fn is_default(&self) -> (r: bool)
        ensures
            r == self.0.is_default,
    {
        self.0.is_default
    }
}

/// One update to the known devices.
#[derive(Debug)]
pub enum DeviceChange {
    /// A device not known before.
    Added(DeviceInfo),
    /// The known device at this index now has this description.
    Changed(usize, DeviceInfo),
    /// The known device at this index is gone.
    Removed(usize),
}

/// The index of the first device in `devices` named `name`, if any.
pub open spec fn first_named(devices: Seq<DeviceInfo>, name: Seq<char>) -> Option<int> {
    if exists|i: int| 0 <= i < devices.len() && (#[trigger] devices[i]).name@ == name {
        Some(
            choose|i: int|
                0 <= i < devices.len() && (#[trigger] devices[i]).name@ == name && forall|j: int|
                    0 <= j < i ==> (#[trigger] devices[j]).name@ != name,
        )
    } else {
        None
    }
}

/// The additions and changes for the first `k` available devices: a device
/// with an unknown name is added; one whose known namesake differs in any
/// field is changed.
pub open spec fn arrivals(known: Seq<DeviceInfo>, available: Seq<DeviceInfo>, k: int) -> Seq<DeviceChange>
    decreases k,
{
    if k <= 0 {
        seq![]
    } else {
        let prev = arrivals(known, available, k - 1);
        let d = available[k - 1];
        match first_named(known, d.name@) {
            None => prev.push(DeviceChange::Added(d)),
            Some(i) => if same_info(known[i], d) {
                prev
            } else {
                prev.push(DeviceChange::Changed(i as usize, d))
            },
        }
    }
}

/// The removals among the first `k` known devices: those whose name no
/// available device has.
pub open spec fn departures(known: Seq<DeviceInfo>, available: Seq<DeviceInfo>, k: int) -> Seq<DeviceChange>
    decreases k,
{
    if k <= 0 {
        seq![]
    } else {
        let prev = departures(known, available, k - 1);
        if first_named(available, known[k - 1].name@) is None {
            prev.push(DeviceChange::Removed((k - 1) as usize))
        } else {
            prev
        }
    }
}

fn find_named(devices: &Vec<DeviceInfo>, name: &String) -> (r: Option<usize>)
    ensures
        r matches Some(i) ==> i < devices@.len() && Some(i as int) == first_named(devices@, name@),
        r is None ==> first_named(devices@, name@) is None,
{
    let mut i: usize = 0;
    while i < devices.len()
        invariant
            i <= devices@.len(),
            forall|j: int| 0 <= j < i ==> (#[trigger] devices@[j]).name@ != name@,
        decreases devices@.len() - i,
    {
        if devices[i].name == *name {
            proof {
                // no earlier device has the name, and this one does
                assert(devices@[i as int].name@ == name@);
                assert(first_named(devices@, name@) == Some(i as int));
            }
            return Some(i);
        }
        i += 1;
    }
    None
}

/// The updates that bring `known` in line with a fresh enumeration
/// `available`: additions and changes in the order of `available`, then
/// removals in the order of `known`. Devices are matched by name.
pub fn reconcile_devices(known: &Vec<DeviceInfo>, available: &Vec<DeviceInfo>) -> (r: Vec<DeviceChange>)
    ensures
        r@ == arrivals(known@, available@, available@.len() as int) + departures(
            known@,
            available@,
            known@.len() as int,
        ),
{
    let mut out: Vec<DeviceChange> = Vec::new();
    let mut k: usize = 0;
    while k < available.len()
        invariant
            k <= available@.len(),
            out@ == arrivals(known@, available@, k as int),
        decreases available@.len() - k,
    {
        let d = &available[k];
        match find_named(known, &d.name) {
            None => {
                out.push(DeviceChange::Added(d.duplicate()));
            },
            Some(i) => {
                let old = &known[i];
                let same = old.name == d.name && old.num_channels == d.num_channels
                    && old.is_default == d.is_default;
                if !same {
                    out.push(DeviceChange::Changed(i, d.duplicate()));
                }
            },
        }
        k += 1;
    }
    let ghost head = out@;
    let mut j: usize = 0;
    while j < known.len()
        invariant
            j <= known@.len(),
            head == arrivals(known@, available@, available@.len() as int),
            out@ == head + departures(known@, available@, j as int),
        decreases known@.len() - j,
    {
        let gone = find_named(available, &known[j].name).is_none();
        let ghost before = out@;
        if gone {
            out.push(DeviceChange::Removed(j));
        }
        proof {
            let d = departures(known@, available@, j as int);
            if gone {
                assert(departures(known@, available@, j + 1) == d.push(DeviceChange::Removed(j)));
                assert(out@ =~= head + departures(known@, available@, j + 1));
            } else {
                assert(departures(known@, available@, j + 1) == d);
            }
        }
        j += 1;
    }
    out
}

/// The device to ask for when restarting: the current choice if a device
/// of that name is still available; otherwise the first default device, if
/// any; `None` leaves the choice to the backend.
pub open spec fn spec_restart_choice(current: Option<Seq<char>>, available: Seq<DeviceInfo>) -> Option<Seq<char>> {
    match current {
        None => None,
        Some(name) => if first_named(available, name) is Some {
            Some(name)
        } else if exists|i: int| 0 <= i < available.len() && (#[trigger] available[i]).is_default {
            Some(
                available[choose|i: int|
                    0 <= i < available.len() && (#[trigger] available[i]).is_default && forall|j: int|
                        0 <= j < i ==> !(#[trigger] available[j]).is_default].name@,
            )
        } else {
            None
        },
    }
}

/// The characters of an optional name.
pub open spec fn name_view(name: Option<String>) -> Option<Seq<char>> {
    match name {
        Some(n) => Some(n@),
        None => None,
    }
}

/// The device name to ask for when the stream restarts.
pub fn restart_choice(current: &Option<String>, available: &Vec<DeviceInfo>) -> (r: Option<String>)
    ensures
        r matches Some(s) ==> spec_restart_choice(name_view(*current), available@) == Some(s@),
        r is None ==> spec_restart_choice(name_view(*current), available@) is None,
{
    match current {
        None => None,
        Some(name) => {
            if find_named(available, name).is_some() {
                return Some(name.clone());
            }
            let mut i: usize = 0;
            while i < available.len()
                invariant
                    i <= available@.len(),
                    name_view(*current) == Some(name@),
                    first_named(available@, name@) is None,
                    forall|j: int| 0 <= j < i ==> !(#[trigger] available@[j]).is_default,
                decreases available@.len() - i,
            {
                if available[i].is_default {
                    proof {
                        assert(available@[i as int].is_default);
                        // the first default device is this one
                        assert(spec_restart_choice(Some(name@), available@) == Some(
                            available@[i as int].name@,
                        ));
                    }
                    let chosen = available[i].name.clone();
                    assert(chosen@ == available@[i as int].name@);
                    return Some(chosen);
                }
                i += 1;
            }
            None
        },
    }
}

} // verus!
