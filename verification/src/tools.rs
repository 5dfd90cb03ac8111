use crate::LoongsonEjtagFactory;
use vstd::prelude::*;

verus! {

/// USB vendor id of Loongson EJTAG probes.
pub const LSEJTAG_VID: u16 = 0x2961;

/// USB product id of Loongson EJTAG probes.
pub const LSEJTAG_PID: u16 = 0x6688;

/// Address of the endpoint the host writes commands to: endpoint 2, OUT.
pub const LSEJTAG_OUT_EP: u8 = 2;

/// Address of the endpoint the host reads replies from: endpoint 6, IN
/// (bit 7 of an endpoint address marks the IN direction).
pub const LSEJTAG_IN_EP: u8 = 6 | 0x80;

/// The two EJTAG endpoint addresses are 0x02 (OUT) and 0x86 (IN).
pub proof fn lemma_endpoint_addresses()
    ensures
        LSEJTAG_OUT_EP == 0x02,
        LSEJTAG_IN_EP == 0x86,
        address_direction(LSEJTAG_OUT_EP) == Direction::Out,
        address_direction(LSEJTAG_IN_EP) == Direction::In,
{
    assert((6u8 | 0x80u8) == 0x86u8) by (bit_vector);
    assert((0x86u8 & 0x80u8) != 0u8 && (0x02u8 & 0x80u8) == 0u8) by (bit_vector);
}

/// The direction of the endpoint at `address`: bit 7 set means IN.
pub open spec fn address_direction(address: u8) -> Direction {
    if address & 0x80 != 0 {
        Direction::In
    } else {
        Direction::Out
    }
}

/// Direction of a USB endpoint.
#[derive(Clone, Copy, Debug, PartialEq, Eq, Structural)]
pub enum Direction {
    In,
    Out,
}

/// Transfer type of a USB endpoint.
#[derive(Clone, Copy, Debug, PartialEq, Eq, Structural)]
pub enum EndpointType {
    Control,
    Isochronous,
    Bulk,
    Interrupt,
}

/// What the probe logic reads of one endpoint descriptor. The direction is
/// not stored: it is bit 7 of the address.
#[derive(Clone, Copy, Debug)]
pub struct EndpointInfo {
    pub address: u8,
    pub transfer_type: EndpointType,
    pub max_packet_size: usize,
}

impl EndpointInfo {
    /// The endpoint's direction, taken from bit 7 of its address.
    pub open spec fn spec_direction(self) -> Direction {
        address_direction(self.address)
    }

    /// The endpoint's direction, taken from bit 7 of its address.
    pub fn direction(&self) -> (r: Direction)
        ensures
            r == self.spec_direction(),
    {
        if self.address & 0x80 != 0 {
            Direction::In
        } else {
            Direction::Out
        }
    }
}

/// Loongson EJTAG probes (until 2025/02/13) are identified using a fixed VID/PID pair.
pub open spec fn spec_is_loongson_ejtag_vidpid(vendor_id: u16, product_id: u16) -> bool {
    vendor_id == LSEJTAG_VID && product_id == LSEJTAG_PID
}

/// Whether a device's VID/PID pair is that of a Loongson EJTAG probe.
pub fn is_loongson_ejtag_vidpid(vendor_id: u16, product_id: u16) -> (r: bool)
    ensures
        r == spec_is_loongson_ejtag_vidpid(vendor_id, product_id),
{
    vendor_id == LSEJTAG_VID && product_id == LSEJTAG_PID
}

/// Whether `ep` is a bulk endpoint at `address`.
pub open spec fn is_bulk_at(ep: EndpointInfo, address: u8) -> bool {
    ep.address == address && ep.transfer_type == EndpointType::Bulk
}

/// How many bulk endpoints at `address` the descriptor lists.
pub open spec fn count_bulk(eps: Seq<EndpointInfo>, address: u8) -> nat
    decreases eps.len(),
{
    if eps.len() == 0 {
        0
    } else {
        count_bulk(eps.drop_last(), address) + if is_bulk_at(eps.last(), address) {
            1nat
        } else {
            0nat
        }
    }
}

/// An interface setting with exactly one bulk endpoint at each of the two
/// EJTAG endpoint addresses.
pub open spec fn spec_has_ejtag_endpoints(eps: Seq<EndpointInfo>) -> bool {
    count_bulk(eps, LSEJTAG_IN_EP) == 1 && count_bulk(eps, LSEJTAG_OUT_EP) == 1
}

/// Whether an interface setting has exactly one bulk endpoint at each of the
/// two EJTAG endpoint addresses.
pub fn has_ejtag_endpoints(endpoints: &Vec<EndpointInfo>) -> (r: bool)
    ensures
        r == spec_has_ejtag_endpoints(endpoints@),
{
    let mut in_ep_count: usize = 0;
    let mut out_ep_count: usize = 0;
    let mut i: usize = 0;
    while i < endpoints.len()
        invariant
            i <= endpoints@.len(),
            in_ep_count == count_bulk(endpoints@.take(i as int), LSEJTAG_IN_EP),
            out_ep_count == count_bulk(endpoints@.take(i as int), LSEJTAG_OUT_EP),
            in_ep_count <= i,
            out_ep_count <= i,
        decreases endpoints.len() - i,
    {
        let ep = endpoints[i];
        proof {
            lemma_endpoint_addresses();
            assert(endpoints@.take(i + 1).drop_last() =~= endpoints@.take(i as int));
        }
        let is_bulk = match ep.transfer_type {
            EndpointType::Bulk => true,
            _ => false,
        };
        if is_bulk && ep.address == LSEJTAG_IN_EP {
            in_ep_count = in_ep_count + 1;
        } else if is_bulk && ep.address == LSEJTAG_OUT_EP {
            out_ep_count = out_ep_count + 1;
        }
        i = i + 1;
    }
    proof {
        assert(endpoints@.take(endpoints@.len() as int) =~= endpoints@);
    }
    in_ep_count == 1 && out_ep_count == 1
}

/// Some interface setting has the EJTAG endpoints.
pub open spec fn spec_found_endpoints(settings: Seq<Vec<EndpointInfo>>) -> bool {
    exists|i: int| 0 <= i < settings.len() && spec_has_ejtag_endpoints(#[trigger] settings[i]@)
}

/// Whether some interface setting of the device has the EJTAG endpoints.
pub fn found_ejtag_endpoints(settings: &Vec<Vec<EndpointInfo>>) -> (r: bool)
    ensures
        r == spec_found_endpoints(settings@),
{
    let mut i: usize = 0;
    while i < settings.len()
        invariant
            i <= settings@.len(),
            forall|j: int| 0 <= j < i ==> !spec_has_ejtag_endpoints(#[trigger] settings@[j]@),
        decreases settings.len() - i,
    {
        if has_ejtag_endpoints(&settings[i]) {
            return true;
        }
        i = i + 1;
    }
    false
}

/// Information on a probe found on the USB bus.
#[derive(Debug)]
pub struct DebugProbeInfo {
    /// The product string of the device.
    pub identifier: String,
    /// The USB vendor id.
    pub vendor_id: u16,
    /// The USB product id.
    pub product_id: u16,
    /// The serial number, if the device reports one.
    pub serial_number: Option<String>,
    /// The factory that opens the probe.
    pub probe_factory: LoongsonEjtagFactory,
    /// The HID interface of the probe, if any.
    pub hid_interface: Option<u8>,
}

/// Identifies a Loongson EJTAG probe: the VID/PID pair must match and some
/// interface setting must have one bulk endpoint at each EJTAG endpoint
/// address. `settings` lists the endpoints of each setting of each interface
/// that could be claimed.
pub fn loongson_ejtag_info(
    vendor_id: u16,
    product_id: u16,
    product: String,
    serial_number: Option<String>,
    settings: &Vec<Vec<EndpointInfo>>,
) -> (r: Option<DebugProbeInfo>)
    ensures
        r is Some <==> spec_is_loongson_ejtag_vidpid(vendor_id, product_id) && spec_found_endpoints(
            settings@,
        ),
        r matches Some(info) ==> {
            &&& info.identifier == product
            &&& info.vendor_id == vendor_id
            &&& info.product_id == product_id
            &&& info.serial_number == serial_number
            &&& info.probe_factory == LoongsonEjtagFactory
            &&& info.hid_interface is None
        },
{
    // Match three things: VID, PID, One Bulk Interface with specified Endpoints
    if !is_loongson_ejtag_vidpid(vendor_id, product_id) {
        return None;
    }
    if found_ejtag_endpoints(settings) {
        Some(
            DebugProbeInfo {
                identifier: product,
                vendor_id,
                product_id,
                serial_number,
                probe_factory: LoongsonEjtagFactory,
                hid_interface: None,
            },
        )
    } else {
        None
    }
}

/// The last endpoint the descriptor lists at `address` (later entries
/// replace earlier ones with the same address).
pub open spec fn last_at(eps: Seq<EndpointInfo>, address: u8) -> Option<EndpointInfo>
    decreases eps.len(),
{
    if eps.len() == 0 {
        None
    } else if eps.last().address == address {
        Some(eps.last())
    } else {
        last_at(eps.drop_last(), address)
    }
}

/// The packet size to open a device with through this interface setting:
/// that of its IN endpoint, when the setting has an IN endpoint at the EJTAG
/// IN address and an OUT endpoint at the EJTAG OUT address.
pub open spec fn spec_setting_packet_size(eps: Seq<EndpointInfo>) -> Option<usize> {
    match (last_at(eps, LSEJTAG_IN_EP), last_at(eps, LSEJTAG_OUT_EP)) {
        (Some(in_ep), Some(out_ep)) => if in_ep.spec_direction() == Direction::In
            && out_ep.spec_direction() == Direction::Out {
            Some(in_ep.max_packet_size)
        } else {
            None
        },
        _ => None,
    }
}

/// Whether a device can be opened through this interface setting, and with
/// which packet size.
pub fn setting_packet_size(endpoints: &Vec<EndpointInfo>) -> (r: Option<usize>)
    ensures
        r == spec_setting_packet_size(endpoints@),
{
    let mut in_ep: Option<EndpointInfo> = None;
    let mut out_ep: Option<EndpointInfo> = None;
    let mut i: usize = 0;
    while i < endpoints.len()
        invariant
            i <= endpoints@.len(),
            in_ep == last_at(endpoints@.take(i as int), LSEJTAG_IN_EP),
            out_ep == last_at(endpoints@.take(i as int), LSEJTAG_OUT_EP),
        decreases endpoints.len() - i,
    {
        let ep = endpoints[i];
        proof {
            assert(endpoints@.take(i + 1).drop_last() =~= endpoints@.take(i as int));
        }
        if ep.address == LSEJTAG_IN_EP {
            in_ep = Some(ep);
        }
        if ep.address == LSEJTAG_OUT_EP {
            out_ep = Some(ep);
        }
        i = i + 1;
    }
    proof {
        assert(endpoints@.take(endpoints@.len() as int) =~= endpoints@);
    }
    match (in_ep, out_ep) {
        (Some(in_ep), Some(out_ep)) => {
            if in_ep.direction() == Direction::In && out_ep.direction() == Direction::Out {
                Some(in_ep.max_packet_size)
            } else {
                None
            }
        },
        _ => None,
    }
}

/// Whether `ep` is at one of the two EJTAG endpoint addresses.
pub open spec fn is_ejtag_endpoint(ep: EndpointInfo) -> bool {
    ep.address == LSEJTAG_IN_EP || ep.address == LSEJTAG_OUT_EP
}

/// The first endpoint of the setting at one of the two EJTAG addresses.
pub open spec fn first_ejtag_endpoint(eps: Seq<EndpointInfo>) -> Option<EndpointInfo>
    decreases eps.len(),
{
    if eps.len() == 0 {
        None
    } else if is_ejtag_endpoint(eps[0]) {
        Some(eps[0])
    } else {
        first_ejtag_endpoint(eps.drop_first())
    }
}

/// The packet size after looking at one interface setting: the smaller of
/// the size so far and that of the setting's first EJTAG endpoint.
pub open spec fn packet_size_step(size: usize, eps: Seq<EndpointInfo>) -> usize {
    match first_ejtag_endpoint(eps) {
        Some(ep) => if ep.max_packet_size < size {
            ep.max_packet_size
        } else {
            size
        },
        None => size,
    }
}

/// The packet size after looking at every interface setting in turn, from `size`.
pub open spec fn packet_size_fold(size: usize, settings: Seq<Vec<EndpointInfo>>) -> usize
    decreases settings.len(),
{
    if settings.len() == 0 {
        size
    } else {
        packet_size_step(packet_size_fold(size, settings.drop_last()), settings.last()@)
    }
}

/// Skipping endpoints that are at neither EJTAG address does not change the
/// first EJTAG endpoint.
proof fn lemma_first_ejtag_skip(eps: Seq<EndpointInfo>, j: int)
    requires
        0 <= j <= eps.len(),
        forall|k: int| 0 <= k < j ==> !is_ejtag_endpoint(#[trigger] eps[k]),
    ensures
        first_ejtag_endpoint(eps) == first_ejtag_endpoint(eps.skip(j)),
    decreases j,
{
    if j > 0 {
        let rest = eps.drop_first();
        assert forall|k: int| 0 <= k < j - 1 implies !is_ejtag_endpoint(#[trigger] rest[k]) by {
            assert(rest[k] == eps[k + 1]);
        }
        lemma_first_ejtag_skip(rest, j - 1);
        assert(rest.skip(j - 1) =~= eps.skip(j));
    } else {
        assert(eps.skip(0) =~= eps);
    }
}

/// The first endpoint of the setting at one of the two EJTAG addresses.
pub fn find_ejtag_endpoint(endpoints: &Vec<EndpointInfo>) -> (r: Option<EndpointInfo>)
    ensures
        r == first_ejtag_endpoint(endpoints@),
{
    let mut i: usize = 0;
    while i < endpoints.len()
        invariant
            i <= endpoints@.len(),
            forall|k: int| 0 <= k < i ==> !is_ejtag_endpoint(#[trigger] endpoints@[k]),
        decreases endpoints.len() - i,
    {
        let ep = endpoints[i];
        if ep.address == LSEJTAG_IN_EP || ep.address == LSEJTAG_OUT_EP {
            proof {
                lemma_first_ejtag_skip(endpoints@, i as int);
                assert(endpoints@.skip(i as int)[0] == ep);
            }
            return Some(ep);
        }
        i = i + 1;
    }
    proof {
        lemma_first_ejtag_skip(endpoints@, i as int);
    }
    None
}

/// Attempts to determine the correct packet size for a device from the
/// endpoint lists of its interface settings, starting from 512 (the
/// maximum packet size of a high-speed device).
pub fn find_packet_size(settings: &Vec<Vec<EndpointInfo>>) -> (r: usize)
    ensures
        r == packet_size_fold(512, settings@),
{
    let mut packet_size: usize = 512;
    let mut i: usize = 0;
    while i < settings.len()
        invariant
            i <= settings@.len(),
            packet_size == packet_size_fold(512, settings@.take(i as int)),
        decreases settings.len() - i,
    {
        proof {
            assert(settings@.take(i + 1).drop_last() =~= settings@.take(i as int));
        }
        let candidate = match find_ejtag_endpoint(&settings[i]) {
            Some(ep) => ep.max_packet_size,
            None => packet_size,
        };
        if candidate < packet_size {
            packet_size = candidate;
        }
        i = i + 1;
    }
    proof {
        assert(settings@.take(settings@.len() as int) =~= settings@);
    }
    packet_size
}

/// The packet size found never exceeds the starting size, nor the size of
/// the first EJTAG endpoint of any interface setting.
pub proof fn law_packet_size_is_minimum(size: usize, settings: Seq<Vec<EndpointInfo>>)
    ensures
        packet_size_fold(size, settings) <= size,
        forall|i: int|
            0 <= i < settings.len() ==> (#[trigger] first_ejtag_endpoint(settings[i]@) matches Some(
                ep,
            ) ==> packet_size_fold(size, settings) <= ep.max_packet_size),
    decreases settings.len(),
{
    if settings.len() > 0 {
        let init = settings.drop_last();
        law_packet_size_is_minimum(size, init);
        assert forall|i: int|
            0 <= i < settings.len() implies (#[trigger] first_ejtag_endpoint(
            settings[i]@,
        ) matches Some(ep) ==> packet_size_fold(size, settings) <= ep.max_packet_size) by {
            if i < settings.len() - 1 {
                assert(settings[i] == init[i]);
            }
        }
    }
}

/// Endpoint `i` of `eps` is the only bulk endpoint at `address`.
pub open spec fn only_bulk_at(eps: Seq<EndpointInfo>, address: u8, i: int) -> bool {
    &&& 0 <= i < eps.len()
    &&& is_bulk_at(eps[i], address)
    &&& forall|k: int| 0 <= k < eps.len() && k != i ==> !is_bulk_at(#[trigger] eps[k], address)
}

/// No endpoint of `eps` is a bulk endpoint at `address` exactly when the count is 0.
proof fn lemma_count_bulk_zero(eps: Seq<EndpointInfo>, address: u8)
    ensures
        count_bulk(eps, address) == 0 <==> forall|k: int|
            0 <= k < eps.len() ==> !is_bulk_at(#[trigger] eps[k], address),
    decreases eps.len(),
{
    if eps.len() > 0 {
        let init = eps.drop_last();
        lemma_count_bulk_zero(init, address);
        if count_bulk(eps, address) == 0 {
            assert forall|k: int| 0 <= k < eps.len() implies !is_bulk_at(
                #[trigger] eps[k],
                address,
            ) by {
                if k < eps.len() - 1 {
                    assert(eps[k] == init[k]);
                }
            }
        }
        if forall|k: int| 0 <= k < eps.len() ==> !is_bulk_at(#[trigger] eps[k], address) {
            assert forall|k: int| 0 <= k < init.len() implies !is_bulk_at(
                #[trigger] init[k],
                address,
            ) by {
                assert(init[k] == eps[k]);
            }
            assert(!is_bulk_at(eps[eps.len() - 1], address));
        }
    }
}

/// The count of bulk endpoints at `address` is 1 exactly when one endpoint
/// is the only bulk endpoint there.
proof fn lemma_count_bulk_one(eps: Seq<EndpointInfo>, address: u8)
    ensures
        count_bulk(eps, address) == 1 <==> exists|i: int| #[trigger] only_bulk_at(eps, address, i),
    decreases eps.len(),
{
    if eps.len() > 0 {
        let init = eps.drop_last();
        let n = eps.len() - 1;
        lemma_count_bulk_one(init, address);
        lemma_count_bulk_zero(init, address);
        if count_bulk(eps, address) == 1 {
            if is_bulk_at(eps[n], address) {
                assert forall|k: int| 0 <= k < eps.len() && k != n implies !is_bulk_at(
                    #[trigger] eps[k],
                    address,
                ) by {
                    assert(eps[k] == init[k]);
                }
                assert(only_bulk_at(eps, address, n));
            } else {
                let i = choose|i: int| #[trigger] only_bulk_at(init, address, i);
                assert forall|k: int| 0 <= k < eps.len() && k != i implies !is_bulk_at(
                    #[trigger] eps[k],
                    address,
                ) by {
                    if k < n {
                        assert(eps[k] == init[k]);
                    }
                }
                assert(eps[i] == init[i]);
                assert(only_bulk_at(eps, address, i));
            }
        }
        if exists|i: int| #[trigger] only_bulk_at(eps, address, i) {
            let i = choose|i: int| #[trigger] only_bulk_at(eps, address, i);
            if i == n {
                assert forall|k: int| 0 <= k < init.len() implies !is_bulk_at(
                    #[trigger] init[k],
                    address,
                ) by {
                    assert(init[k] == eps[k]);
                }
            } else {
                assert(!is_bulk_at(eps[n], address));
                assert forall|k: int| 0 <= k < init.len() && k != i implies !is_bulk_at(
                    #[trigger] init[k],
                    address,
                ) by {
                    assert(init[k] == eps[k]);
                }
                assert(init[i] == eps[i]);
                assert(only_bulk_at(init, address, i));
            }
        }
    }
}

/// A setting is recognised exactly when it has one and only one bulk
/// endpoint at the IN address 0x86 and one and only one at the OUT address
/// 0x02; whatever else it lists does not matter.
pub proof fn law_ejtag_endpoints_recognised(eps: Seq<EndpointInfo>)
    ensures
        spec_has_ejtag_endpoints(eps) <==> (exists|i: int| #[trigger] only_bulk_at(eps, 0x86, i))
            && (exists|j: int| #[trigger] only_bulk_at(eps, 0x02, j)),
{
    lemma_endpoint_addresses();
    lemma_count_bulk_one(eps, LSEJTAG_IN_EP);
    lemma_count_bulk_one(eps, LSEJTAG_OUT_EP);
}

/// Endpoint `i` of `eps` is the last one at `address`.
pub open spec fn is_last_at(eps: Seq<EndpointInfo>, address: u8, i: int) -> bool {
    &&& 0 <= i < eps.len()
    &&& eps[i].address == address
    &&& forall|k: int| i < k < eps.len() ==> (#[trigger] eps[k]).address != address
}

/// `last_at` finds nothing exactly when no endpoint is at the address, and
/// otherwise finds the last endpoint there.
proof fn lemma_last_at(eps: Seq<EndpointInfo>, address: u8)
    ensures
        last_at(eps, address) is None <==> forall|k: int|
            0 <= k < eps.len() ==> (#[trigger] eps[k]).address != address,
        forall|i: int| #[trigger] is_last_at(eps, address, i) ==> last_at(eps, address) == Some(eps[i]),
    decreases eps.len(),
{
    if eps.len() > 0 {
        let init = eps.drop_last();
        let n = eps.len() - 1;
        lemma_last_at(init, address);
        if last_at(eps, address) is None {
            assert forall|k: int| 0 <= k < eps.len() implies (#[trigger] eps[k]).address
                != address by {
                if k < n {
                    assert(eps[k] == init[k]);
                }
            }
        }
        if forall|k: int| 0 <= k < eps.len() ==> (#[trigger] eps[k]).address != address {
            assert(eps[n].address != address);
            assert forall|k: int| 0 <= k < init.len() implies (#[trigger] init[k]).address
                != address by {
                assert(init[k] == eps[k]);
            }
        }
        assert forall|i: int| #[trigger] is_last_at(eps, address, i) implies last_at(eps, address)
            == Some(eps[i]) by {
            if i < n {
                assert(eps[n].address != address);
                assert forall|k: int| i < k < init.len() implies (#[trigger] init[k]).address
                    != address by {
                    assert(init[k] == eps[k]);
                }
                assert(is_last_at(init, address, i));
                assert(init[i] == eps[i]);
            }
        }
    }
}

/// A setting gives a packet size exactly when it lists an endpoint at the IN
/// address 0x86 and one at the OUT address 0x02, and that size is the one
/// of the last endpoint at 0x86: the OUT endpoint's size plays no part.
pub proof fn law_setting_packet_size_is_in_endpoint(eps: Seq<EndpointInfo>)
    ensures
        spec_setting_packet_size(eps) is Some <==> (exists|i: int|
            0 <= i < eps.len() && (#[trigger] eps[i]).address == 0x86) && (exists|j: int|
            0 <= j < eps.len() && (#[trigger] eps[j]).address == 0x02),
        forall|i: int|
            #[trigger] is_last_at(eps, 0x86, i) && spec_setting_packet_size(eps) is Some
                ==> spec_setting_packet_size(eps) == Some(eps[i].max_packet_size),
{
    lemma_endpoint_addresses();
    lemma_last_at(eps, LSEJTAG_IN_EP);
    lemma_last_at(eps, LSEJTAG_OUT_EP);
    if (exists|i: int| 0 <= i < eps.len() && (#[trigger] eps[i]).address == 0x86) && (exists|j: int|
        0 <= j < eps.len() && (#[trigger] eps[j]).address == 0x02) {
        let in_ep = last_at(eps, LSEJTAG_IN_EP)->0;
        let out_ep = last_at(eps, LSEJTAG_OUT_EP)->0;
        lemma_last_at_address(eps, LSEJTAG_IN_EP);
        lemma_last_at_address(eps, LSEJTAG_OUT_EP);
        assert(in_ep.spec_direction() == Direction::In);
        assert(out_ep.spec_direction() == Direction::Out);
    }
}

/// What `last_at` finds is at the address asked for.
proof fn lemma_last_at_address(eps: Seq<EndpointInfo>, address: u8)
    ensures
        last_at(eps, address) matches Some(ep) ==> ep.address == address,
    decreases eps.len(),
{
    if eps.len() > 0 {
        lemma_last_at_address(eps.drop_last(), address);
    }
}

/// Endpoint `j` is the first of `eps` at an EJTAG address.
pub open spec fn is_first_ejtag_index(eps: Seq<EndpointInfo>, j: int) -> bool {
    &&& 0 <= j < eps.len()
    &&& is_ejtag_endpoint(eps[j])
    &&& forall|k: int| 0 <= k < j ==> !is_ejtag_endpoint(#[trigger] eps[k])
}

/// The first EJTAG endpoint found is exactly the endpoint of lowest index
/// at an EJTAG address, and one is found whenever such an endpoint exists.
pub proof fn lemma_first_ejtag(eps: Seq<EndpointInfo>)
    ensures
        forall|j: int| #[trigger] is_first_ejtag_index(eps, j) ==> first_ejtag_endpoint(eps) == Some(
            eps[j],
        ),
        first_ejtag_endpoint(eps) is Some ==> exists|j: int|
            #[trigger] is_first_ejtag_index(eps, j) && first_ejtag_endpoint(eps) == Some(eps[j]),
    decreases eps.len(),
{
    assert forall|j: int| #[trigger] is_first_ejtag_index(eps, j) implies first_ejtag_endpoint(eps)
        == Some(eps[j]) by {
        lemma_first_ejtag_skip(eps, j);
        assert(eps.skip(j)[0] == eps[j]);
    }
    if eps.len() > 0 {
        if is_ejtag_endpoint(eps[0]) {
            assert(is_first_ejtag_index(eps, 0));
        } else {
            let rest = eps.drop_first();
            lemma_first_ejtag(rest);
            if first_ejtag_endpoint(rest) is Some {
                let j = choose|j: int|
                    #[trigger] is_first_ejtag_index(rest, j) && first_ejtag_endpoint(rest) == Some(
                        rest[j],
                    );
                assert forall|k: int| 0 <= k < j + 1 implies !is_ejtag_endpoint(
                    #[trigger] eps[k],
                ) by {
                    if k > 0 {
                        assert(eps[k] == rest[k - 1]);
                    }
                }
                assert(eps[j + 1] == rest[j]);
                assert(is_first_ejtag_index(eps, j + 1));
            }
        }
    }
}

/// The size found is the starting size or the size of the first EJTAG
/// endpoint of some setting.
proof fn lemma_packet_size_attained(size: usize, settings: Seq<Vec<EndpointInfo>>)
    ensures
        packet_size_fold(size, settings) == size || exists|i: int|
            0 <= i < settings.len() && (#[trigger] first_ejtag_endpoint(settings[i]@)) is Some
                && packet_size_fold(size, settings) == first_ejtag_endpoint(
                settings[i]@,
            )->0.max_packet_size,
    decreases settings.len(),
{
    if settings.len() > 0 {
        let init = settings.drop_last();
        let n = settings.len() - 1;
        lemma_packet_size_attained(size, init);
        if packet_size_fold(size, settings) != packet_size_fold(size, init) {
            assert(first_ejtag_endpoint(settings[n]@) is Some);
        } else if packet_size_fold(size, init) != size {
            let i = choose|i: int|
                0 <= i < init.len() && (#[trigger] first_ejtag_endpoint(init[i]@)) is Some
                    && packet_size_fold(size, init) == first_ejtag_endpoint(
                    init[i]@,
                )->0.max_packet_size;
            assert(settings[i] == init[i]);
        }
    }
}

/// The packet size of a device is exactly the minimum of 512 and the sizes
/// of the first EJTAG endpoint of each setting: it is no larger than any of
/// them, and equal to one of them.
pub proof fn law_packet_size_is_exact_minimum(settings: Seq<Vec<EndpointInfo>>)
    ensures
        packet_size_fold(512, settings) <= 512,
        forall|i: int, j: int|
            0 <= i < settings.len() && #[trigger] is_first_ejtag_index(settings[i]@, j)
                ==> packet_size_fold(512, settings) <= settings[i]@[j].max_packet_size,
        packet_size_fold(512, settings) == 512 || exists|i: int, j: int|
            0 <= i < settings.len() && #[trigger] is_first_ejtag_index(settings[i]@, j)
                && packet_size_fold(512, settings) == settings[i]@[j].max_packet_size,
{
    law_packet_size_is_minimum(512, settings);
    assert forall|i: int, j: int|
        0 <= i < settings.len() && #[trigger] is_first_ejtag_index(settings[i]@, j) implies packet_size_fold(
        512,
        settings,
    ) <= settings[i]@[j].max_packet_size by {
        lemma_first_ejtag(settings[i]@);
        assert(first_ejtag_endpoint(settings[i]@) == Some(settings[i]@[j]));
    }
    lemma_packet_size_attained(512, settings);
    if packet_size_fold(512, settings) != 512 {
        let i = choose|i: int|
            0 <= i < settings.len() && (#[trigger] first_ejtag_endpoint(settings[i]@)) is Some
                && packet_size_fold(512, settings) == first_ejtag_endpoint(
                settings[i]@,
            )->0.max_packet_size;
        lemma_first_ejtag(settings[i]@);
        let j = choose|j: int|
            #[trigger] is_first_ejtag_index(settings[i]@, j) && first_ejtag_endpoint(settings[i]@)
                == Some(settings[i]@[j]);
        assert(is_first_ejtag_index(settings[i]@, j));
    }
}

/// Only the VID/PID pair 2961:6688 is that of a Loongson EJTAG probe.
pub proof fn law_vidpid(vendor_id: u16, product_id: u16)
    ensures
        spec_is_loongson_ejtag_vidpid(vendor_id, product_id) <==> vendor_id == 0x2961 && product_id
            == 0x6688,
{
}

/// The EJTAG endpoint addresses are 0x86 (IN) and 0x02 (OUT), and nothing else.
pub proof fn law_ejtag_endpoint_addresses(ep: EndpointInfo)
    ensures
        is_ejtag_endpoint(ep) <==> ep.address == 0x86 || ep.address == 0x02,
{
    lemma_endpoint_addresses();
}

/// A device is recognised exactly when some setting of it is: no setting
/// is never recognised, and adding a setting recognises the device exactly
/// when it was recognised already or the new setting is.
pub proof fn law_found_endpoints(settings: Seq<Vec<EndpointInfo>>, extra: Vec<EndpointInfo>)
    ensures
        !spec_found_endpoints(Seq::<Vec<EndpointInfo>>::empty()),
        spec_found_endpoints(settings.push(extra)) <==> spec_found_endpoints(settings)
            || spec_has_ejtag_endpoints(extra@),
{
    let pushed = settings.push(extra);
    if spec_found_endpoints(settings) {
        let i = choose|i: int|
            0 <= i < settings.len() && spec_has_ejtag_endpoints(#[trigger] settings[i]@);
        assert(pushed[i] == settings[i]);
    }
    if spec_has_ejtag_endpoints(extra@) {
        assert(pushed[settings.len() as int] == extra);
    }
    if spec_found_endpoints(pushed) {
        let i = choose|i: int|
            0 <= i < pushed.len() && spec_has_ejtag_endpoints(#[trigger] pushed[i]@);
        if i < settings.len() {
            assert(pushed[i] == settings[i]);
        }
    }
}

/// Selects probes by USB identity.
#[derive(Debug)]
pub struct DebugProbeSelector {
    /// The USB vendor id to match.
    pub vendor_id: u16,
    /// The USB product id to match.
    pub product_id: u16,
    /// The serial number to match, if any.
    pub serial_number: Option<String>,
}

impl DebugProbeSelector {
    /// Whether a device with these ids and serial number is selected: the
    /// ids must be equal, and so must the serial numbers if the selector
    /// names one.
    pub open spec fn spec_matches(
        &self,
        vendor_id: u16,
        product_id: u16,
        serial_number: Option<String>,
    ) -> bool {
        &&& self.vendor_id == vendor_id
        &&& self.product_id == product_id
        &&& (self.serial_number matches Some(s) ==> (serial_number matches Some(t) && s@ == t@))
    }

    /// Whether a device with these ids and serial number is selected.
    pub fn matches(&self, vendor_id: u16, product_id: u16, serial_number: &Option<String>) -> (r:
        bool)
        ensures
            r == self.spec_matches(vendor_id, product_id, *serial_number),
    {
        if self.vendor_id != vendor_id || self.product_id != product_id {
            return false;
        }
        match &self.serial_number {
            Some(s) => match serial_number {
                Some(t) => s.eq(t),
                None => false,
            },
            None => true,
        }
    }
}

/// A selector made from a device's own ids and serial number selects that
/// device; a selector never selects a device with other ids; and a selector
/// without a serial number selects a device with its ids whatever the
/// device's serial number.
pub proof fn law_selector(vendor_id: u16, product_id: u16, serial: Option<String>, other: Option<String>, selector: DebugProbeSelector)
    ensures
        (DebugProbeSelector { vendor_id, product_id, serial_number: serial }).spec_matches(
            vendor_id,
            product_id,
            serial,
        ),
        selector.vendor_id != vendor_id || selector.product_id != product_id ==> !selector.spec_matches(
            vendor_id,
            product_id,
            other,
        ),
        selector.serial_number is None ==> (selector.spec_matches(vendor_id, product_id, other)
            <==> selector.vendor_id == vendor_id && selector.product_id == product_id),
{
}

} // verus!
