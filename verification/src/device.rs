//! Which audio device is shared: the default audio sink.

use vstd::prelude::*;

use crate::text::str_eq;

verus! {

/// What the device choice reads of a device that the device monitor lists.
pub struct AudioDevice {
    /// The device class, such as `Audio/Sink` or `Audio/Source`.
    pub device_class: String,
    /// The device has a property structure.
    pub has_properties: bool,
    /// Its `is-default` property, where it has one of type `bool`.
    pub is_default: Option<bool>,
}

/// What the search over the devices decided.
pub enum DeviceChoice {
    /// Share the device at this index.
    Use(usize),
    /// The device at this index has no properties, and the search gives up.
    NoProperties(usize),
    /// No device is the default audio sink.
    NotFound,
}

/// The default audio sink.
pub open spec fn is_default_sink(d: AudioDevice) -> bool {
    &&& d.has_properties
    &&& d.device_class@ == "Audio/Sink"@
    &&& d.is_default == Some(true)
}

/// A device at which the search stops: one without properties, or the
/// default audio sink.
pub open spec fn ends_search(d: AudioDevice) -> bool {
    !d.has_properties || is_default_sink(d)
}

/// The search did not stop before index `i`.
pub open spec fn passes_before(s: Seq<AudioDevice>, i: int) -> bool {
    forall|j: int| 0 <= j < i ==> !ends_search(#[trigger] s[j])
}

/// The devices are looked at in order. The first one without properties
/// ends the search with nothing found; the first default audio sink is the
/// one to share.
pub fn choose_device(devices: &Vec<AudioDevice>) -> (r: DeviceChoice)
    ensures
        match r {
            DeviceChoice::Use(i) => i < devices@.len() && passes_before(devices@, i as int)
                && is_default_sink(devices@[i as int]),
            DeviceChoice::NoProperties(i) => i < devices@.len() && passes_before(devices@, i as int)
                && !devices@[i as int].has_properties,
            DeviceChoice::NotFound => passes_before(devices@, devices@.len() as int),
        },
{
    let n = devices.len();
    for i in 0..n
        invariant
            n == devices@.len(),
            passes_before(devices@, i as int),
    {
        let d = &devices[i];
        if !d.has_properties {
            return DeviceChoice::NoProperties(i);
        }
        let is_sink = str_eq(d.device_class.as_str(), "Audio/Sink");
        if is_sink && d.is_default == Some(true) {
            return DeviceChoice::Use(i);
        }
    }
    DeviceChoice::NotFound
}

/// The shared device is the default audio sink, and no device before it
/// is one: at most one choice fits the contract of `choose_device`.
pub proof fn lemma_choice_unique(s: Seq<AudioDevice>, i: int, k: int)
    requires
        0 <= i < s.len(),
        0 <= k < s.len(),
        passes_before(s, i),
        passes_before(s, k),
        ends_search(s[i]),
        ends_search(s[k]),
    ensures
        i == k,
{
    if i < k {
        assert(!ends_search(s[i]));
    } else if k < i {
        assert(!ends_search(s[k]));
    }
}

} // verus!
