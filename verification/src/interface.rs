//! Network interfaces as the kernel enumerates them.
//!
//! Each interface record is decoded from the attribute set of one dump
//! message: name, index, type, wiphy id, wdev id and MAC address. The
//! enumeration keeps the kernel's order; the MAC address alone defines
//! identity, so two records with one MAC describe one entity.

use vstd::prelude::*;

use vstd::utf8::decode_utf8;
use vstd::utf8::valid_utf8;

use crate::codec::encode_request;
use crate::codec::is_done;
use crate::codec::spec_attr_lookup;
use crate::codec::spec_encode_request;
use crate::codec::spec_entries_view;
use crate::codec::spec_get_scalar_u32;
use crate::codec::spec_get_scalar_u64;
use crate::codec::spec_is_done;
use crate::codec::spec_msgs_view;
use crate::codec::spec_parse_attrs;
use crate::codec::spec_trim_last;
use crate::codec::AttributeTable;
use crate::codec::NLM_F_DUMP;
use crate::codec::NLM_F_REQUEST;
use crate::text::str_eq;
use crate::text::string_from_utf8;
use crate::ScanError;

verus! {

/// Attribute id of the wiphy identifier.
pub const ATTR_WIPHY: u16 = 1;

/// Attribute id of the interface index.
pub const ATTR_IFINDEX: u16 = 3;

/// Attribute id of the null-terminated interface name.
pub const ATTR_IFNAME: u16 = 4;

/// Attribute id of the interface type.
pub const ATTR_IFTYPE: u16 = 5;

/// Attribute id of the six-byte MAC address.
pub const ATTR_MAC: u16 = 6;

/// Attribute id of the 64-bit wdev identifier.
pub const ATTR_WDEV: u16 = 153;

/// Command asking for a dump of every interface.
pub const CMD_GET_INTERFACE: u8 = 5;

/// The closed set of interface roles nl80211 reports.
#[derive(Debug, Clone, Copy, PartialEq, Eq, Hash, Structural)]
pub enum InterfaceType {
    Unspecified,
    Adhoc,
    Station,
    AP,
    APVlan,
    WDS,
    Monitor,
    MeshPoint,
    P2PClient,
    P2PGo,
    P2PDevice,
    Ocb,
    Nan,
}

/// The interface type a raw nl80211 type code denotes; codes outside the
/// known range fall back to `Unspecified`.
pub open spec fn spec_iftype_from_raw(v: u32) -> InterfaceType {
    if v == 1 {
        InterfaceType::Adhoc
    } else if v == 2 {
        InterfaceType::Station
    } else if v == 3 {
        InterfaceType::AP
    } else if v == 4 {
        InterfaceType::APVlan
    } else if v == 5 {
        InterfaceType::WDS
    } else if v == 6 {
        InterfaceType::Monitor
    } else if v == 7 {
        InterfaceType::MeshPoint
    } else if v == 8 {
        InterfaceType::P2PClient
    } else if v == 9 {
        InterfaceType::P2PGo
    } else if v == 10 {
        InterfaceType::P2PDevice
    } else if v == 11 {
        InterfaceType::Ocb
    } else if v == 12 {
        InterfaceType::Nan
    } else {
        InterfaceType::Unspecified
    }
}

impl From<u32> for InterfaceType {
    fn from(v: u32) -> (r: Self) {
        match v {
            1 => InterfaceType::Adhoc,
            2 => InterfaceType::Station,
            3 => InterfaceType::AP,
            4 => InterfaceType::APVlan,
            5 => InterfaceType::WDS,
            6 => InterfaceType::Monitor,
            7 => InterfaceType::MeshPoint,
            8 => InterfaceType::P2PClient,
            9 => InterfaceType::P2PGo,
            10 => InterfaceType::P2PDevice,
            11 => InterfaceType::Ocb,
            12 => InterfaceType::Nan,
            _ => InterfaceType::Unspecified,
        }
    }
}

impl vstd::std_specs::convert::FromSpecImpl<u32> for InterfaceType {
    open spec fn obeys_from_spec() -> bool {
        true
    }

    open spec fn from_spec(v: u32) -> Self {
        spec_iftype_from_raw(v)
    }
}

/// One enumerated interface.
#[derive(Debug, Clone)]
pub struct Interface {
    pub name: String,
    pub index: u32,
    pub iftype: InterfaceType,
    pub wiphy: u32,
    pub wdev: u64,
    pub mac_address: [u8; 6],
}

/// The mathematical contents of an [`Interface`].
pub struct IfaceView {
    pub name: Seq<char>,
    pub index: u32,
    pub iftype: InterfaceType,
    pub wiphy: u32,
    pub wdev: u64,
    pub mac: Seq<u8>,
}

impl View for Interface {
    type V = IfaceView;

    open spec fn view(&self) -> IfaceView {
        IfaceView {
            name: self.name@,
            index: self.index,
            iftype: self.iftype,
            wiphy: self.wiphy,
            wdev: self.wdev,
            mac: self.mac_address@,
        }
    }
}

/// Whether attribute table `t` yields a complete interface record: name
/// present and valid UTF-8 once its terminator is trimmed, the scalar
/// fields present at their exact widths, and a six-byte MAC address.
pub open spec fn spec_iface_fields_ok(t: Seq<(u16, Seq<u8>)>) -> bool {
    &&& spec_attr_lookup(t, ATTR_IFNAME) matches Some(p) && valid_utf8(spec_trim_last(p))
    &&& spec_get_scalar_u32(t, ATTR_IFINDEX) is Ok
    &&& spec_get_scalar_u32(t, ATTR_IFTYPE) is Ok
    &&& spec_get_scalar_u32(t, ATTR_WIPHY) is Ok
    &&& spec_get_scalar_u64(t, ATTR_WDEV) is Ok
    &&& spec_attr_lookup(t, ATTR_MAC) matches Some(m) && m.len() == 6
}

/// The interface record attribute table `t` yields, meaningful when
/// [`spec_iface_fields_ok`] holds of `t`.
pub open spec fn spec_iface_of_table(t: Seq<(u16, Seq<u8>)>) -> IfaceView {
    IfaceView {
        name: decode_utf8(spec_trim_last(spec_attr_lookup(t, ATTR_IFNAME)->0)),
        index: spec_get_scalar_u32(t, ATTR_IFINDEX)->Ok_0,
        iftype: spec_iftype_from_raw(spec_get_scalar_u32(t, ATTR_IFTYPE)->Ok_0),
        wiphy: spec_get_scalar_u32(t, ATTR_WIPHY)->Ok_0,
        wdev: spec_get_scalar_u64(t, ATTR_WDEV)->Ok_0,
        mac: spec_attr_lookup(t, ATTR_MAC)->0,
    }
}

/// The first required field missing from `t`, checked in the order the
/// fields are read: name, index, type, wiphy, wdev, MAC.
pub open spec fn spec_iface_error(t: Seq<(u16, Seq<u8>)>) -> ScanError {
    if !(spec_attr_lookup(t, ATTR_IFNAME) matches Some(p) && valid_utf8(spec_trim_last(p))) {
        ScanError::Decode(ATTR_IFNAME)
    } else if spec_get_scalar_u32(t, ATTR_IFINDEX) is Err {
        ScanError::Decode(ATTR_IFINDEX)
    } else if spec_get_scalar_u32(t, ATTR_IFTYPE) is Err {
        ScanError::Decode(ATTR_IFTYPE)
    } else if spec_get_scalar_u32(t, ATTR_WIPHY) is Err {
        ScanError::Decode(ATTR_WIPHY)
    } else if spec_get_scalar_u64(t, ATTR_WDEV) is Err {
        ScanError::Decode(ATTR_WDEV)
    } else {
        ScanError::Decode(ATTR_MAC)
    }
}

impl Interface {
    /// Decode one interface record from a message's attribute table.
    pub fn try_from_attrs(t: &AttributeTable) -> (r: Result<Interface, ScanError>)
        ensures
            r is Ok <==> spec_iface_fields_ok(t@),
            r matches Ok(i) ==> i@ == spec_iface_of_table(t@),
            r matches Err(e) ==> e == spec_iface_error(t@),
    {
        let name_bytes = match t.get_bytes_trimmed(ATTR_IFNAME) {
            Ok(v) => v,
            Err(_) => {
                return Err(ScanError::Decode(ATTR_IFNAME));
            },
        };
        let name = match string_from_utf8(name_bytes) {
            Some(s) => s,
            None => {
                return Err(ScanError::Decode(ATTR_IFNAME));
            },
        };
        let index = match t.get_scalar_u32(ATTR_IFINDEX) {
            Ok(v) => v,
            Err(e) => {
                return Err(e);
            },
        };
        let raw_type = match t.get_scalar_u32(ATTR_IFTYPE) {
            Ok(v) => v,
            Err(e) => {
                return Err(e);
            },
        };
        let iftype = InterfaceType::from(raw_type);
        let wiphy = match t.get_scalar_u32(ATTR_WIPHY) {
            Ok(v) => v,
            Err(e) => {
                return Err(e);
            },
        };
        let wdev = match t.get_scalar_u64(ATTR_WDEV) {
            Ok(v) => v,
            Err(e) => {
                return Err(e);
            },
        };
        let mac_bytes = match t.get_bytes_exact(ATTR_MAC, 6) {
            Ok(v) => v,
            Err(e) => {
                return Err(e);
            },
        };
        let mac_address: [u8; 6] = [
            mac_bytes[0],
            mac_bytes[1],
            mac_bytes[2],
            mac_bytes[3],
            mac_bytes[4],
            mac_bytes[5],
        ];
        assert(mac_address@ =~= mac_bytes@);
        Ok(Interface { name, index, iftype, wiphy, wdev, mac_address })
    }

    /// Whether `self` and `other` name the same physical entity: identity
    /// goes by MAC address, never by index.
    pub fn same_entity(&self, other: &Interface) -> (r: bool)
        ensures
            r == (self@.mac == other@.mac),
    {
        let mut i: usize = 0;
        while i < 6
            invariant
                i <= 6,
                forall|k: int| 0 <= k < i ==> self.mac_address@[k] == other.mac_address@[k],
            decreases 6 - i,
        {
            if self.mac_address[i] != other.mac_address[i] {
                assert(self.mac_address@[i as int] != other.mac_address@[i as int]);
                return false;
            }
            i = i + 1;
        }
        assert(self.mac_address@ =~= other.mac_address@);
        true
    }
}

/// The first interface in `ifaces` whose name is `name`, reported by its
/// position; absence is the [`ScanError::InterfaceNotFound`] failure.
pub fn find_by_name(ifaces: &Vec<Interface>, name: &str) -> (r: Result<usize, ScanError>)
    ensures
        match r {
            Ok(i) => 0 <= i < ifaces@.len() && ifaces@[i as int].name@ == name@ && (forall|j: int|
                0 <= j < i ==> ifaces@[j].name@ != name@),
            Err(e) => e == ScanError::InterfaceNotFound && (forall|j: int|
                0 <= j < ifaces@.len() ==> ifaces@[j].name@ != name@),
        },
{
    let mut i: usize = 0;
    while i < ifaces.len()
        invariant
            i <= ifaces@.len(),
            forall|j: int| 0 <= j < i ==> ifaces@[j].name@ != name@,
        decreases ifaces@.len() - i,
    {
        if str_eq(ifaces[i].name.as_str(), name) {
            return Ok(i);
        }
        i = i + 1;
    }
    Err(ScanError::InterfaceNotFound)
}

/// The mathematical contents of a vector of interfaces.
pub open spec fn spec_ifaces_view(s: Seq<Interface>) -> Seq<IfaceView> {
    Seq::new(s.len(), |i: int| s[i]@)
}

/// The interface record one dump message yields: the record of its
/// attribute table when that table is complete, nothing otherwise.
pub open spec fn spec_decode_interface(m: Seq<u8>) -> Option<IfaceView> {
    let t = spec_parse_attrs(m, 20);
    if spec_iface_fields_ok(t) {
        Some(spec_iface_of_table(t))
    } else {
        None
    }
}

/// The interface records of the messages from `k` on, stopping at the
/// dump terminator; messages that yield no record are skipped.
pub open spec fn spec_collect_interfaces(msgs: Seq<Seq<u8>>, k: int) -> Seq<IfaceView>
    decreases msgs.len() - k,
{
    if k < 0 || k >= msgs.len() {
        Seq::empty()
    } else if spec_is_done(msgs[k]) {
        Seq::empty()
    } else {
        let rest = spec_collect_interfaces(msgs, k + 1);
        match spec_decode_interface(msgs[k]) {
            Some(v) => seq![v] + rest,
            None => rest,
        }
    }
}

/// Whether the messages from `k` on reach the dump terminator.
pub open spec fn spec_batch_done(msgs: Seq<Seq<u8>>, k: int) -> bool
    decreases msgs.len() - k,
{
    if k < 0 || k >= msgs.len() {
        false
    } else if spec_is_done(msgs[k]) {
        true
    } else {
        spec_batch_done(msgs, k + 1)
    }
}

/// Aggregation of the multi-message response to an interface dump.
/// Receive batches are fed in until the kernel's terminator message is
/// seen; the terminator carries no record and is excluded.
pub struct InterfaceDump {
    pub done: bool,
    pub interfaces: Vec<Interface>,
}

impl InterfaceDump {
    /// An aggregation that has seen nothing yet.
    pub fn new() -> (r: InterfaceDump)
        ensures
            !r.done,
            r.interfaces@.len() == 0,
    {
        InterfaceDump { done: false, interfaces: Vec::new() }
    }

    /// The request whose response this aggregation consumes: a
    /// GET_INTERFACE dump addressed to family `family`.
    pub fn request(family: u16) -> (r: Vec<u8>)
        ensures
            r@ == spec_encode_request(
                family,
                NLM_F_REQUEST | NLM_F_DUMP,
                CMD_GET_INTERFACE,
                Seq::empty(),
            ),
    {
        let attrs: Vec<(u16, Vec<u8>)> = Vec::new();
        proof {
            assert(spec_entries_view(attrs@) =~= Seq::<(u16, Seq<u8>)>::empty());
        }
        let r = encode_request(family, NLM_F_REQUEST | NLM_F_DUMP, CMD_GET_INTERFACE, &attrs);
        r
    }

    /// Take in one receive batch: decode each message into an interface
    /// record until the batch ends or the dump terminator appears.
    /// Messages that yield no record are skipped, never fatal.
    pub fn feed(&mut self, msgs: &Vec<Vec<u8>>)
        requires
            !old(self).done,
        ensures
            final(self).done == spec_batch_done(spec_msgs_view(msgs@), 0),
            spec_ifaces_view(final(self).interfaces@) == spec_ifaces_view(
                old(self).interfaces@,
            ) + spec_collect_interfaces(spec_msgs_view(msgs@), 0),
    {
        let ghost v = spec_msgs_view(msgs@);
        let ghost base = spec_ifaces_view(old(self).interfaces@);
        let mut k: usize = 0;
        loop
            invariant_except_break
                k <= msgs@.len(),
                v == spec_msgs_view(msgs@),
                base == spec_ifaces_view(old(self).interfaces@),
                !self.done,
                spec_ifaces_view(self.interfaces@) + spec_collect_interfaces(v, k as int) == base
                    + spec_collect_interfaces(v, 0),
                spec_batch_done(v, k as int) == spec_batch_done(v, 0),
            ensures
                self.done == spec_batch_done(v, 0),
                spec_ifaces_view(self.interfaces@) == base + spec_collect_interfaces(v, 0),
            decreases msgs@.len() - k,
        {
            let ghost acc = spec_ifaces_view(self.interfaces@);
            if k >= msgs.len() {
                assert(spec_collect_interfaces(v, k as int) =~= Seq::<IfaceView>::empty());
                assert(acc =~= acc + spec_collect_interfaces(v, k as int));
                break ;
            }
            let m = &msgs[k];
            assert(m@ == v[k as int]);
            if is_done(m) {
                self.done = true;
                assert(spec_collect_interfaces(v, k as int) =~= Seq::<IfaceView>::empty());
                assert(acc =~= acc + spec_collect_interfaces(v, k as int));
                break ;
            }
            let t = AttributeTable::decode(m, 20);
            match Interface::try_from_attrs(&t) {
                Ok(iface) => {
                    let ghost ifv = iface@;
                    self.interfaces.push(iface);
                    proof {
                        assert(spec_ifaces_view(self.interfaces@) =~= acc + seq![ifv]);
                        assert(spec_collect_interfaces(v, k as int) =~= seq![ifv]
                            + spec_collect_interfaces(v, k + 1));
                    }
                },
                Err(_) => {
                    proof {
                        assert(spec_collect_interfaces(v, k as int) =~= spec_collect_interfaces(
                            v,
                            k + 1,
                        ));
                    }
                },
            }
            k = k + 1;
        }
    }
}

} // verus!
