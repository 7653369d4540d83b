use vstd::prelude::*;

use crate::control::{
    copy_control_target, ControlCapabilities, ControlTarget, ControlTransportKind,
    DiscoveredDevice, TargetView,
};
use crate::register_map::{names_ascending, spec_stream_prefixes, stream_prefixes};
use crate::text::{owned, push_str};
use crate::yaml::DeviceConfig;

verus! {

/// A device as the controller lists it: how to reach it and where it was found.
#[derive(Clone, Debug, PartialEq, Eq)]
pub struct DeviceSummary {
    pub target: ControlTarget,
    pub interface_name: String,
    pub interface_address: String,
    pub device_address: String,
}

/// What the controller knows of a device: its summary, what it supports, its register
/// description, and the names of its streams.
#[derive(Debug, PartialEq, Eq)]
pub struct DeviceDescription {
    pub summary: DeviceSummary,
    pub capabilities: ControlCapabilities,
    pub device: DeviceConfig,
    pub streams: Vec<String>,
}

/// The summary of a discovered device.
pub fn summary_from_discovered(device: DiscoveredDevice) -> (r: DeviceSummary)
    ensures
        r.target == (ControlTarget {
            device_uri: device.device_uri,
            transport_kind: device.transport_kind,
            auth_scope: device.auth_scope,
        }),
        r.interface_name == device.interface_name,
        r.interface_address == device.interface_address,
        r.device_address == device.device_address,
{
    DeviceSummary {
        target: ControlTarget {
            device_uri: device.device_uri,
            transport_kind: device.transport_kind,
            auth_scope: device.auth_scope,
        },
        interface_name: device.interface_name,
        interface_address: device.interface_address,
        device_address: device.device_address,
    }
}

/// The description of a device from its register description and capabilities: the summary
/// names the target and where the description says the device was found; the streams are
/// the stream prefixes of its registers, in ascending order.
pub fn device_description(
    target: ControlTarget,
    device: DeviceConfig,
    capabilities: ControlCapabilities,
) -> (r: DeviceDescription)
    ensures
        r.summary.target == target,
        r.summary.interface_name@ == device.location.interface_name@,
        r.summary.interface_address@ == device.location.interface_address@,
        r.summary.device_address@ == device.location.device_address@,
        r.capabilities == capabilities,
        r.device == device,
        names_ascending(r.streams@.map_values(|s: String| s@)),
        r.streams@.map_values(|s: String| s@).to_set() == spec_stream_prefixes(device.registers@),
{
    let streams = stream_prefixes(&device);
    let summary = DeviceSummary {
        target,
        interface_name: device.location.interface_name.clone(),
        interface_address: device.location.interface_address.clone(),
        device_address: device.location.device_address.clone(),
    };
    DeviceDescription { summary, capabilities, device, streams }
}

/// The target that names a device URI directly.
pub fn explicit_target(device_uri: &str) -> (r: ControlTarget)
    ensures
        r@ == (TargetView {
            device_uri: device_uri@,
            transport_kind: ControlTransportKind::CoapRegister,
            auth_scope: None,
        }),
{
    ControlTarget {
        device_uri: owned(device_uri),
        transport_kind: ControlTransportKind::CoapRegister,
        auth_scope: None,
    }
}

/// The target that discovery is asked about: a device URI to filter by, or none.
pub fn discovery_target(device_uri_filter: Option<&str>) -> (r: ControlTarget)
    ensures
        r@ == (TargetView {
            device_uri: match device_uri_filter {
                Some(f) => f@,
                None => Seq::empty(),
            },
            transport_kind: ControlTransportKind::CoapRegister,
            auth_scope: None,
        }),
{
    let device_uri = match device_uri_filter {
        Some(f) => owned(f),
        None => String::new(),
    };
    ControlTarget { device_uri, transport_kind: ControlTransportKind::CoapRegister, auth_scope: None }
}

/// Texts joined with a separator.
pub open spec fn spec_join(items: Seq<Seq<char>>, sep: Seq<char>) -> Seq<char>
    decreases items.len(),
{
    if items.len() == 0 {
        Seq::empty()
    } else if items.len() == 1 {
        items[0]
    } else {
        spec_join(items.drop_last(), sep) + sep + items.last()
    }
}

/// How a device is named among several candidates: its URI and, in brackets, its address.
pub open spec fn spec_candidate(d: DeviceSummary) -> Seq<char> {
    d.target.device_uri@ + " ("@ + d.device_address@ + ")"@
}

/// The target a command uses when it names no device: the one discovered device; an error
/// for none, or for several, naming the candidates.
pub open spec fn spec_choose_target(devices: Seq<DeviceSummary>) -> Result<TargetView, Seq<char>> {
    if devices.len() == 1 {
        Ok(devices[0].target@)
    } else if devices.len() == 0 {
        Err("no devices found; pass --device-uri explicitly"@)
    } else {
        Err(
            "multiple devices found; pass --device-uri explicitly: "@ + spec_join(
                devices.map_values(|d: DeviceSummary| spec_candidate(d)),
                ", "@,
            ),
        )
    }
}

/// Chooses the target among the discovered devices.
pub fn choose_discovered_target(devices: &[DeviceSummary]) -> (r: Result<ControlTarget, String>)
    ensures
        match spec_choose_target(devices@) {
            Ok(t) => r matches Ok(target) && target@ == t,
            Err(m) => r matches Err(e) && e@ == m,
        },
{
    if devices.len() == 1 {
        return Ok(copy_control_target(&devices[0].target));
    }
    if devices.len() == 0 {
        return Err(owned("no devices found; pass --device-uri explicitly"));
    }
    let ghost cands = devices@.map_values(|d: DeviceSummary| spec_candidate(d));
    let mut list = String::new();
    let mut i: usize = 0;
    while i < devices.len()
        invariant
            cands == devices@.map_values(|d: DeviceSummary| spec_candidate(d)),
            i <= devices@.len(),
            list@ == spec_join(cands.subrange(0, i as int), ", "@),
        decreases devices@.len() - i,
    {
        let ghost before = list@;
        if i > 0 {
            push_str(&mut list, ", ");
        }
        push_str(&mut list, devices[i].target.device_uri.as_str());
        push_str(&mut list, " (");
        push_str(&mut list, devices[i].device_address.as_str());
        push_str(&mut list, ")");
        proof {
            let sub = cands.subrange(0, i + 1);
            assert(sub.drop_last() =~= cands.subrange(0, i as int));
            assert(sub.last() == spec_candidate(devices@[i as int]));
            if i == 0 {
                assert(sub.len() == 1);
                assert(list@ =~= spec_join(sub, ", "@));
            } else {
                assert(list@ =~= spec_join(sub, ", "@));
            }
        }
        i = i + 1;
    }
    assert(cands.subrange(0, devices@.len() as int) =~= cands);
    let mut m = owned("multiple devices found; pass --device-uri explicitly: ");
    push_str(&mut m, list.as_str());
    Err(m)
}

} // verus!
