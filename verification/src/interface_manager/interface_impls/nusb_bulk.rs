//! The nusb bulk interface: USB bulk transfers between a host and a device.
//!
//! These are the host's decisions when it looks for ergot devices: which devices
//! qualify, which USB interface and endpoints to use, and the packet size. The
//! USB calls themselves live with the caller, which hands in what it read.
use vstd::prelude::*;

verus! {

/// Interface implementation using nusb bulk transfers.
#[derive(Debug, Clone, Copy, PartialEq, Eq, Structural)]
pub struct NusbBulk {}

/// What is known about a device found by the device search.
#[derive(Debug, Hash, PartialEq, Eq, Clone)]
pub struct DeviceInfo {
    pub usb_serial_number: Option<String>,
    pub usb_manufacturer: Option<String>,
    pub usb_product: Option<String>,
}

/// The USB interface class of vendor-specific interfaces.
pub const VENDOR_CLASS: u8 = 0xFF;

/// The interface subclass that ergot devices use.
pub const ERGOT_SUBCLASS: u8 = 0xCA;

/// The interface protocol that ergot devices use.
pub const ERGOT_PROTOCOL: u8 = 0x7D;

/// One interface of a USB device, as the device search reads it.
pub struct UsbInterfaceInfo {
    pub class: u8,
    pub subclass: u8,
    pub protocol: u8,
    pub interface_string: Option<String>,
}

/// An interface that an ergot device offers: vendor class with ergot's subclass
/// and protocol, and no interface string or the string "ergot".
pub open spec fn ergot_interface(i: UsbInterfaceInfo) -> bool {
    &&& i.class == VENDOR_CLASS
    &&& i.subclass == ERGOT_SUBCLASS
    &&& i.protocol == ERGOT_PROTOCOL
    &&& match i.interface_string {
        Some(s) => s@ == "ergot"@,
        None => true,
    }
}

/// Whether a device may be an ergot device: some interface of it qualifies.
pub fn coarse_device_filter(interfaces: &Vec<UsbInterfaceInfo>) -> (r: bool)
    ensures
        r == exists|i: int| 0 <= i < interfaces@.len() && ergot_interface(#[trigger] interfaces@[i]),
{
    let ergot: String = "ergot".to_owned();
    let mut i: usize = 0;
    while i < interfaces.len()
        invariant
            i <= interfaces@.len(),
            ergot@ == "ergot"@,
            forall|j: int| 0 <= j < i ==> !ergot_interface(#[trigger] interfaces@[j]),
        decreases interfaces@.len() - i,
    {
        let intfc = &interfaces[i];
        let pre_check = intfc.class == VENDOR_CLASS && intfc.subclass == ERGOT_SUBCLASS
            && intfc.protocol == ERGOT_PROTOCOL;
        let name_ok = match &intfc.interface_string {
            Some(s) => *s == ergot,
            None => true,
        };
        if pre_check && name_ok {
            return true;
        }
        i = i + 1;
    }
    false
}

/// Where a USB device sits: its bus and address, and (where the platform has
/// one) its registry entry.
#[derive(Debug, Clone, Copy, PartialEq, Eq, Structural)]
pub struct UsbDeviceLocation {
    pub bus_number: u8,
    pub device_address: u8,
    pub registry_entry_id: Option<u64>,
}

/// Whether two device listings are the same device.
pub fn device_match(d1: &UsbDeviceLocation, d2: &UsbDeviceLocation) -> (r: bool)
    ensures
        r == (d1.bus_number == d2.bus_number && d1.device_address == d2.device_address
            && d1.registry_entry_id == d2.registry_entry_id),
{
    let bus_match = d1.bus_number == d2.bus_number;
    let addr_match = d1.device_address == d2.device_address;
    let registry_match = match (d1.registry_entry_id, d2.registry_entry_id) {
        (Some(a), Some(b)) => a == b,
        (None, None) => true,
        _ => false,
    };
    bus_match && addr_match && registry_match
}

/// The position of the first vendor-class interface, the one to claim.
pub fn vendor_interface(classes: &Vec<u8>) -> (r: Option<usize>)
    ensures
        match r {
            Some(i) => i < classes@.len() && classes@[i as int] == VENDOR_CLASS && forall|j: int|
                0 <= j < i ==> classes@[j] != VENDOR_CLASS,
            None => forall|j: int| 0 <= j < classes@.len() ==> classes@[j] != VENDOR_CLASS,
        },
{
    let mut i: usize = 0;
    while i < classes.len()
        invariant
            i <= classes@.len(),
            forall|j: int| 0 <= j < i ==> classes@[j] != VENDOR_CLASS,
        decreases classes@.len() - i,
    {
        if classes[i] == VENDOR_CLASS {
            return Some(i);
        }
        i = i + 1;
    }
    None
}

/// One endpoint of the claimed interface.
#[derive(Debug, Clone, Copy, PartialEq, Eq, Structural)]
pub struct EndpointInfo {
    /// Whether it is a bulk endpoint.
    pub bulk: bool,
    /// Whether its direction is OUT (host to device).
    pub out: bool,
    pub address: u8,
    pub max_packet_size: usize,
}

/// The bulk endpoints chosen for a device, and the packet size to frame by.
#[derive(Debug, Clone, Copy, PartialEq, Eq, Structural)]
pub struct BulkEndpoints {
    /// The smallest max packet size among the bulk OUT endpoints.
    pub max_packet_size: Option<usize>,
    /// The last bulk OUT endpoint.
    pub ep_out: Option<u8>,
    /// The last bulk IN endpoint.
    pub ep_in: Option<u8>,
}

/// The choice of endpoints over the given ones, in order: each bulk OUT endpoint
/// lowers the packet size to its own if smaller and becomes the OUT endpoint; each
/// bulk IN endpoint becomes the IN endpoint.
pub open spec fn endpoints_spec(eps: Seq<EndpointInfo>) -> BulkEndpoints
    decreases eps.len(),
{
    if eps.len() == 0 {
        BulkEndpoints { max_packet_size: None, ep_out: None, ep_in: None }
    } else {
        let prev = endpoints_spec(eps.drop_last());
        let e = eps.last();
        if !e.bulk {
            prev
        } else if e.out {
            BulkEndpoints {
                max_packet_size: Some(
                    match prev.max_packet_size {
                        Some(old) => if old <= e.max_packet_size {
                            old
                        } else {
                            e.max_packet_size
                        },
                        None => e.max_packet_size,
                    },
                ),
                ep_out: Some(e.address),
                ..prev
            }
        } else {
            BulkEndpoints { ep_in: Some(e.address), ..prev }
        }
    }
}

/// Choose the endpoints of a device, as [`endpoints_spec`] says.
pub fn select_endpoints(eps: &Vec<EndpointInfo>) -> (r: BulkEndpoints)
    ensures
        r == endpoints_spec(eps@),
{
    let mut acc = BulkEndpoints { max_packet_size: None, ep_out: None, ep_in: None };
    let mut i: usize = 0;
    while i < eps.len()
        invariant
            i <= eps@.len(),
            acc == endpoints_spec(eps@.take(i as int)),
        decreases eps@.len() - i,
    {
        let e = eps[i];
        assert(eps@.take(i + 1 as int).drop_last() =~= eps@.take(i as int));
        if e.bulk {
            if e.out {
                let mps = match acc.max_packet_size {
                    Some(old) => if old <= e.max_packet_size {
                        old
                    } else {
                        e.max_packet_size
                    },
                    None => e.max_packet_size,
                };
                acc = BulkEndpoints { max_packet_size: Some(mps), ep_out: Some(e.address), ep_in: acc.ep_in };
            } else {
                acc = BulkEndpoints { ep_in: Some(e.address), ..acc };
            }
        }
        i = i + 1;
    }
    assert(eps@.take(eps@.len() as int) =~= eps@);
    acc
}

/// The chosen packet size is that of some bulk OUT endpoint, and no bulk OUT
/// endpoint has a smaller one.
pub proof fn lemma_packet_size_is_min(eps: Seq<EndpointInfo>)
    ensures
        match endpoints_spec(eps).max_packet_size {
            Some(m) => (exists|i: int|
                0 <= i < eps.len() && eps[i].bulk && eps[i].out && eps[i].max_packet_size == m)
                && forall|i: int|
                0 <= i < eps.len() && eps[i].bulk && eps[i].out ==> m <= #[trigger] eps[i].max_packet_size,
            None => forall|i: int| 0 <= i < eps.len() ==> !(#[trigger] eps[i].bulk && eps[i].out),
        },
    decreases eps.len(),
{
    if eps.len() > 0 {
        let init = eps.drop_last();
        lemma_packet_size_is_min(init);
        let last = eps.len() - 1;
        let e = eps[last];
        assert forall|i: int| 0 <= i < init.len() implies #[trigger] init[i] == eps[i] by {}
        if e.bulk && e.out {
            match endpoints_spec(init).max_packet_size {
                Some(m) => {
                    let i = choose|i: int|
                        0 <= i < init.len() && init[i].bulk && init[i].out && init[i].max_packet_size == m;
                    assert(eps[i] == init[i]);
                    if m <= e.max_packet_size {
                        assert(eps[i].bulk && eps[i].out && eps[i].max_packet_size == m);
                    } else {
                        assert(eps[last].bulk && eps[last].out);
                    }
                    assert forall|k: int| 0 <= k < eps.len() && eps[k].bulk && eps[k].out implies
                        endpoints_spec(eps).max_packet_size->0 <= #[trigger] eps[k].max_packet_size by {
                        if k < last {
                            assert(init[k] == eps[k]);
                        }
                    }
                },
                None => {
                    assert(eps[last].bulk && eps[last].out);
                    assert forall|k: int| 0 <= k < eps.len() && eps[k].bulk && eps[k].out implies
                        endpoints_spec(eps).max_packet_size->0 <= #[trigger] eps[k].max_packet_size by {
                        if k < last {
                            assert(init[k] == eps[k]);
                        }
                    }
                },
            }
        } else {
            match endpoints_spec(init).max_packet_size {
                Some(m) => {
                    let i = choose|i: int|
                        0 <= i < init.len() && init[i].bulk && init[i].out && init[i].max_packet_size == m;
                    assert(eps[i] == init[i]);
                    assert forall|k: int| 0 <= k < eps.len() && eps[k].bulk && eps[k].out implies
                        m <= #[trigger] eps[k].max_packet_size by {
                        if k < last {
                            assert(init[k] == eps[k]);
                        }
                    }
                },
                None => {
                    assert forall|k: int| 0 <= k < eps.len() implies !(#[trigger] eps[k].bulk && eps[k].out) by {
                        if k < last {
                            assert(init[k] == eps[k]);
                        }
                    }
                },
            }
        }
    }
}

/// The interface an ergot device announces (vendor class, ergot's subclass and
/// protocol, named "ergot" or unnamed) passes the host's device filter.
pub proof fn lemma_announced_interface_accepted(name: Option<String>)
    requires
        match name {
            Some(s) => s@ == "ergot"@,
            None => true,
        },
    ensures
        ergot_interface(
            UsbInterfaceInfo {
                class: VENDOR_CLASS,
                subclass: ERGOT_SUBCLASS,
                protocol: ERGOT_PROTOCOL,
                interface_string: name,
            },
        ),
{
}

/// An optional string, by its characters.
pub open spec fn opt_chars(o: Option<String>) -> Option<Seq<char>> {
    match o {
        Some(s) => Some(s@),
        None => None,
    }
}

/// Two device descriptions are the same: equal serial numbers, manufacturers
/// and products.
pub open spec fn same_info(a: DeviceInfo, b: DeviceInfo) -> bool {
    &&& opt_chars(a.usb_serial_number) == opt_chars(b.usb_serial_number)
    &&& opt_chars(a.usb_manufacturer) == opt_chars(b.usb_manufacturer)
    &&& opt_chars(a.usb_product) == opt_chars(b.usb_product)
}

/// The device is among the known ones.
pub open spec fn is_known(known: Seq<DeviceInfo>, info: DeviceInfo) -> bool {
    exists|k: int| 0 <= k < known.len() && same_info(#[trigger] known[k], info)
}

/// The position of the first vendor-class interface, the one to claim.
pub open spec fn first_vendor(ifs: Seq<UsbInterfaceInfo>) -> Option<nat>
    decreases ifs.len(),
{
    if ifs.len() == 0 {
        None
    } else {
        match first_vendor(ifs.drop_last()) {
            Some(i) => Some(i),
            None => if ifs.last().class == VENDOR_CLASS {
                Some((ifs.len() - 1) as nat)
            } else {
                None
            },
        }
    }
}

/// A device the search found: its description, its interfaces, and the
/// endpoints of its vendor-class interface, as the caller read them.
pub struct FoundDevice {
    pub info: DeviceInfo,
    pub interfaces: Vec<UsbInterfaceInfo>,
    pub endpoints: Vec<EndpointInfo>,
}

/// A device chosen for a new connection.
#[derive(Debug, Clone, Copy, PartialEq, Eq, Structural)]
pub struct SelectedDevice {
    /// Its position among the found devices.
    pub index: usize,
    /// The interface to claim.
    pub interface: usize,
    /// The bulk OUT endpoint.
    pub ep_out: u8,
    /// The bulk IN endpoint.
    pub ep_in: u8,
    /// The smallest max packet size among the bulk OUT endpoints.
    pub max_packet_size: Option<usize>,
}

/// What becomes of the found device at `index`: it is skipped when no interface
/// of it passes the device filter, when it is already known, when it has no
/// vendor-class interface, or when that interface lacks a bulk OUT or a bulk IN
/// endpoint; otherwise it is chosen, with the last bulk OUT and IN endpoints and
/// the smallest OUT packet size.
pub open spec fn device_choice(known: Seq<DeviceInfo>, d: FoundDevice, index: nat) -> Option<
    SelectedDevice,
> {
    if !(exists|i: int| 0 <= i < d.interfaces@.len() && ergot_interface(#[trigger] d.interfaces@[i]))
        || is_known(known, d.info) {
        None
    } else {
        match first_vendor(d.interfaces@) {
            None => None,
            Some(intf) => {
                let e = endpoints_spec(d.endpoints@);
                match (e.ep_out, e.ep_in) {
                    (Some(o), Some(i)) => Some(
                        SelectedDevice {
                            index: index as usize,
                            interface: intf as usize,
                            ep_out: o,
                            ep_in: i,
                            max_packet_size: e.max_packet_size,
                        },
                    ),
                    _ => None,
                }
            },
        }
    }
}

/// The devices chosen among the found ones, in order.
pub open spec fn selection_spec(known: Seq<DeviceInfo>, found: Seq<FoundDevice>) -> Seq<
    SelectedDevice,
>
    decreases found.len(),
{
    if found.len() == 0 {
        Seq::empty()
    } else {
        let prev = selection_spec(known, found.drop_last());
        match device_choice(known, found.last(), (found.len() - 1) as nat) {
            Some(c) => prev.push(c),
            None => prev,
        }
    }
}

/// Whether two optional strings are equal.
fn same_opt_string(a: &Option<String>, b: &Option<String>) -> (r: bool)
    ensures
        r == (opt_chars(*a) == opt_chars(*b)),
{
    match (a, b) {
        (Some(x), Some(y)) => *x == *y,
        (None, None) => true,
        _ => false,
    }
}

/// Whether the device is among the known ones.
fn known_contains(known: &Vec<DeviceInfo>, info: &DeviceInfo) -> (r: bool)
    ensures
        r == is_known(known@, *info),
{
    let mut k: usize = 0;
    while k < known.len()
        invariant
            k <= known@.len(),
            forall|j: int| 0 <= j < k ==> !same_info(#[trigger] known@[j], *info),
        decreases known@.len() - k,
    {
        let d = &known[k];
        if same_opt_string(&d.usb_serial_number, &info.usb_serial_number) && same_opt_string(
            &d.usb_manufacturer,
            &info.usb_manufacturer,
        ) && same_opt_string(&d.usb_product, &info.usb_product) {
            assert(same_info(known@[k as int], *info));
            return true;
        }
        k = k + 1;
    }
    false
}

/// The position of the first vendor-class interface, as [`first_vendor`] says.
fn first_vendor_interface(ifs: &Vec<UsbInterfaceInfo>) -> (r: Option<usize>)
    ensures
        match first_vendor(ifs@) {
            Some(i) => r == Some(i as usize),
            None => r is None,
        },
{
    let mut found: Option<usize> = None;
    let mut i: usize = 0;
    while i < ifs.len()
        invariant
            i <= ifs@.len(),
            match first_vendor(ifs@.take(i as int)) {
                Some(x) => found == Some(x as usize),
                None => found is None,
            },
        decreases ifs@.len() - i,
    {
        assert(ifs@.take(i + 1 as int).drop_last() =~= ifs@.take(i as int));
        if found.is_none() && ifs[i].class == VENDOR_CLASS {
            found = Some(i);
        }
        i = i + 1;
    }
    assert(ifs@.take(ifs@.len() as int) =~= ifs@);
    found
}

/// Choose, among the found devices, those to connect to, as [`selection_spec`]
/// says: each result names a device that passes the device filter, is not yet
/// known, and has a vendor-class interface with a bulk OUT and a bulk IN
/// endpoint. The known devices are not changed: the caller adds the new ones.
pub fn select_new_devices(known: &Vec<DeviceInfo>, found: &Vec<FoundDevice>) -> (r: Vec<
    SelectedDevice,
>)
    ensures
        r@ == selection_spec(known@, found@),
{
    let mut out: Vec<SelectedDevice> = Vec::new();
    let mut n: usize = 0;
    while n < found.len()
        invariant
            n <= found@.len(),
            out@ == selection_spec(known@, found@.take(n as int)),
        decreases found@.len() - n,
    {
        let d = &found[n];
        assert(found@.take(n + 1 as int).drop_last() =~= found@.take(n as int));
        assert(found@.take(n + 1 as int).last() == found@[n as int]);
        if coarse_device_filter(&d.interfaces) && !known_contains(known, &d.info) {
            match first_vendor_interface(&d.interfaces) {
                Some(intf) => {
                    let e = select_endpoints(&d.endpoints);
                    match (e.ep_out, e.ep_in) {
                        (Some(o), Some(i)) => {
                            out.push(
                                SelectedDevice {
                                    index: n,
                                    interface: intf,
                                    ep_out: o,
                                    ep_in: i,
                                    max_packet_size: e.max_packet_size,
                                },
                            );
                        },
                        _ => {},
                    }
                },
                None => {},
            }
        }
        n = n + 1;
    }
    assert(found@.take(found@.len() as int) =~= found@);
    out
}

/// A packet size is chosen exactly when an OUT endpoint is.
proof fn lemma_out_has_size(eps: Seq<EndpointInfo>)
    ensures
        endpoints_spec(eps).ep_out is Some <==> endpoints_spec(eps).max_packet_size is Some,
    decreases eps.len(),
{
    if eps.len() > 0 {
        lemma_out_has_size(eps.drop_last());
    }
}

/// Every chosen device is one of the found devices that passes the device
/// filter and is not known, and its packet size is the smallest of its bulk OUT
/// endpoints.
pub proof fn lemma_selection_sound(known: Seq<DeviceInfo>, found: Seq<FoundDevice>, k: int)
    requires
        0 <= k < selection_spec(known, found).len(),
        found.len() <= usize::MAX,
    ensures
        ({
            let c = selection_spec(known, found)[k];
            let d = found[c.index as int];
            &&& c.index < found.len()
            &&& exists|i: int| 0 <= i < d.interfaces@.len() && ergot_interface(#[trigger] d.interfaces@[i])
            &&& !is_known(known, d.info)
            &&& first_vendor(d.interfaces@) matches Some(i) && c.interface == i as usize
            &&& endpoints_spec(d.endpoints@).ep_out == Some(c.ep_out)
            &&& endpoints_spec(d.endpoints@).ep_in == Some(c.ep_in)
            &&& c.max_packet_size == endpoints_spec(d.endpoints@).max_packet_size
            &&& match c.max_packet_size {
                Some(m) => forall|e: int|
                    0 <= e < d.endpoints@.len() && d.endpoints@[e].bulk && d.endpoints@[e].out
                        ==> m <= #[trigger] d.endpoints@[e].max_packet_size,
                None => false,
            }
        }),
    decreases found.len(),
{
    let prev = selection_spec(known, found.drop_last());
    let last = (found.len() - 1) as nat;
    if k < prev.len() {
        lemma_selection_sound(known, found.drop_last(), k);
        let c = prev[k];
        assert(found.drop_last()[c.index as int] == found[c.index as int]);
    } else {
        let d = found[last as int];
        lemma_packet_size_is_min(d.endpoints@);
        lemma_out_has_size(d.endpoints@);
        assert(device_choice(known, found.last(), last) is Some);
        let c = selection_spec(known, found)[k];
        assert(c == device_choice(known, found.last(), last)->0);
        assert(c.index as int == last);
    }
}

/// Every usable new device is chosen: a found device that passes the device
/// filter (so it has a vendor-class interface), is not known, and whose
/// vendor-class interface holds a bulk OUT and a bulk IN endpoint appears in
/// the selection under its index.
pub proof fn lemma_selection_complete(known: Seq<DeviceInfo>, found: Seq<FoundDevice>, k: int)
    requires
        0 <= k < found.len(),
        found.len() <= usize::MAX,
        exists|i: int|
            0 <= i < found[k].interfaces@.len() && ergot_interface(#[trigger] found[k].interfaces@[i]),
        !is_known(known, found[k].info),
        exists|e: int|
            0 <= e < found[k].endpoints@.len() && found[k].endpoints@[e].bulk && #[trigger] found[k].endpoints@[e].out,
        exists|e: int|
            0 <= e < found[k].endpoints@.len() && found[k].endpoints@[e].bulk && !#[trigger] found[k].endpoints@[e].out,
    ensures
        exists|j: int|
            0 <= j < selection_spec(known, found).len() && #[trigger] selection_spec(known, found)[j].index
                == k,
    decreases found.len(),
{
    let init = found.drop_last();
    let last = found.len() - 1;
    if k < last {
        assert(init[k] == found[k]);
        lemma_selection_complete(known, init, k);
        let j = choose|j: int| 0 <= j < selection_spec(known, init).len() && selection_spec(known, init)[j].index == k;
        assert(selection_spec(known, found)[j] == selection_spec(known, init)[j]);
    } else {
        let d = found[k];
        lemma_endpoints_present(d.endpoints@);
        let i = choose|i: int| 0 <= i < d.interfaces@.len() && ergot_interface(#[trigger] d.interfaces@[i]);
        lemma_vendor_found(d.interfaces@, i);
        assert(device_choice(known, found.last(), last as nat) is Some);
        let n = selection_spec(known, init).len();
        assert(selection_spec(known, found)[n as int].index == k);
    }
}

/// A vendor-class interface at `i` means there is a first one.
proof fn lemma_vendor_found(ifs: Seq<UsbInterfaceInfo>, i: int)
    requires
        0 <= i < ifs.len(),
        ifs[i].class == VENDOR_CLASS,
    ensures
        first_vendor(ifs) is Some,
    decreases ifs.len(),
{
    if i < ifs.len() - 1 {
        assert(ifs.drop_last()[i] == ifs[i]);
        lemma_vendor_found(ifs.drop_last(), i);
    }
}

/// Once the endpoints hold a bulk OUT (IN) endpoint, an OUT (IN) endpoint is
/// chosen.
proof fn lemma_endpoints_present(eps: Seq<EndpointInfo>)
    ensures
        (exists|e: int| 0 <= e < eps.len() && eps[e].bulk && #[trigger] eps[e].out) ==> endpoints_spec(
            eps,
        ).ep_out is Some,
        (exists|e: int| 0 <= e < eps.len() && eps[e].bulk && !#[trigger] eps[e].out) ==> endpoints_spec(
            eps,
        ).ep_in is Some,
    decreases eps.len(),
{
    if eps.len() > 0 {
        let init = eps.drop_last();
        lemma_endpoints_present(init);
        assert forall|e: int| 0 <= e < init.len() implies #[trigger] init[e] == eps[e] by {}
        if exists|e: int| 0 <= e < eps.len() && eps[e].bulk && #[trigger] eps[e].out {
            let e = choose|e: int| 0 <= e < eps.len() && eps[e].bulk && #[trigger] eps[e].out;
            if e < eps.len() - 1 {
                assert(init[e] == eps[e]);
            }
        }
        if exists|e: int| 0 <= e < eps.len() && eps[e].bulk && !#[trigger] eps[e].out {
            let e = choose|e: int| 0 <= e < eps.len() && eps[e].bulk && !#[trigger] eps[e].out;
            if e < eps.len() - 1 {
                assert(init[e] == eps[e]);
            }
        }
    }
}

} // verus!

