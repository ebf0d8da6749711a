//! The scan orchestrator.
//!
//! One scan is a fixed protocol exchange driven as a small state machine:
//! trigger the scan, wait for the kernel's asynchronous completion
//! notification on the multicast socket, then fetch and decode the result
//! dump. The machine owns no socket: the caller sends the request buffers
//! it hands out and feeds back each received batch of raw messages.
//!
//! The multicast join must be in place before the trigger is sent;
//! subscribing afterwards risks missing a notification the kernel emits
//! before the join completes. The caller upholds this by asking for the
//! trigger request only once its listener is subscribed.
//!
//! A notification with the scan-aborted tag means another scan is already
//! running: the machine parks in a distinct non-error terminal state with
//! an empty result list, never in a failure.
//!
//! The machine imposes no timeout of its own: a kernel that never emits
//! the awaited notification leaves the wait standing, so callers should
//! bound the notification wait externally.

use vstd::prelude::*;

use vstd::utf8::decode_utf8;
use vstd::utf8::valid_utf8;

use crate::codec::encode_request;
use crate::codec::is_done;
use crate::codec::lemma_encode_attrs_len;
use crate::codec::spec_ack_code;
use crate::codec::spec_attr_lookup;
use crate::codec::spec_encode_request;
use crate::codec::spec_entries_view;
use crate::codec::spec_get_scalar_i32;
use crate::codec::spec_is_done;
use crate::codec::spec_msg_cmd;
use crate::codec::spec_msgs_view;
use crate::codec::spec_parse_attrs;
use crate::codec::spec_u32_le;
use crate::codec::u32_payload;
use crate::codec::ack_code;
use crate::codec::msg_cmd;
use crate::codec::AttributeTable;
use crate::codec::NLM_F_ACK;
use crate::codec::NLM_F_DUMP;
use crate::codec::NLM_F_REQUEST;
use crate::ie::extract_ssid;
use crate::ie::spec_find_ssid;
use crate::interface::ATTR_IFINDEX;
use crate::quality::dbm_level_to_quality;
use crate::quality::quality_spec;
use crate::text::string_from_utf8;
use crate::ScanError;
use crate::Station;
use crate::StationView;

verus! {

/// Command asking for a dump of the current scan results.
pub const CMD_GET_SCAN: u8 = 32;

/// Command starting a scan.
pub const CMD_TRIGGER_SCAN: u8 = 33;

/// Command tag of the multicast notification that new results are ready.
pub const CMD_NEW_SCAN_RESULTS: u8 = 34;

/// Command tag of the multicast notification that the scan was aborted
/// or another one is already running.
pub const CMD_SCAN_ABORTED: u8 = 35;

/// Attribute id of the nested BSS record inside a scan-result message.
pub const ATTR_BSS: u16 = 47;

/// Attribute id of the scan-flags bitmask on a trigger request.
pub const ATTR_SCAN_FLAGS: u16 = 158;

/// Scan flag asking for an AP-style scan.
pub const SCAN_FLAG_AP: u32 = 4;

/// Attribute id, inside a BSS record, of the information-element blob.
pub const BSS_INFORMATION_ELEMENTS: u16 = 6;

/// Attribute id, inside a BSS record, of the signal strength in mBm.
pub const BSS_SIGNAL_MBM: u16 = 7;

/// Where one scan stands.
#[derive(Debug, Clone, Copy, PartialEq, Eq, Structural)]
pub enum ScanPhase {
    /// Nothing sent yet.
    Idle,
    /// The trigger request is out; its acknowledgement is owed.
    Triggering,
    /// Waiting for the kernel's completion notification.
    AwaitingNotification,
    /// The result dump is being fetched and aggregated.
    FetchingResults,
    /// The scan finished; the collected stations stand.
    Done,
    /// Another scan was already running: a non-error outcome with an
    /// empty result list.
    AlreadyScanning,
    /// A fatal error ended the exchange.
    Failed,
}

/// The station one scan-result message yields: its nested BSS record
/// must carry a signal strength and an information-element blob whose
/// first SSID element decodes to non-empty UTF-8; anything less yields
/// nothing.
pub open spec fn spec_station_of_msg(m: Seq<u8>) -> Option<StationView> {
    let t = spec_parse_attrs(m, 20);
    match spec_attr_lookup(t, ATTR_BSS) {
        Some(bss_payload) => {
            let bss = spec_parse_attrs(bss_payload, 0);
            match spec_get_scalar_i32(bss, BSS_SIGNAL_MBM) {
                Ok(signal) => match spec_attr_lookup(bss, BSS_INFORMATION_ELEMENTS) {
                    Some(ies) => match spec_find_ssid(ies, 0) {
                        Some(sb) => if valid_utf8(sb) && decode_utf8(sb).len() > 0 {
                            Some(
                                StationView {
                                    ssid: decode_utf8(sb),
                                    quality: quality_spec(signal as int) as u8,
                                },
                            )
                        } else {
                            None
                        },
                        None => None,
                    },
                    None => None,
                },
                Err(_) => None,
            }
        },
        None => None,
    }
}

/// Decode one scan-result message into a station, or nothing when any
/// required part is missing or malformed. Such a record is skipped; it
/// never fails the dump.
pub fn parse_station(m: &Vec<u8>) -> (r: Option<Station>)
    ensures
        match r {
            Some(st) => spec_station_of_msg(m@) matches Some(v) && st@ == v && st.wf(),
            None => spec_station_of_msg(m@) is None,
        },
{
    let t = AttributeTable::decode(m, 20);
    let bss_payload = match t.get(ATTR_BSS) {
        Some(p) => p,
        None => {
            return None;
        },
    };
    let bss = AttributeTable::decode(bss_payload, 0);
    let signal = match bss.get_scalar_i32(BSS_SIGNAL_MBM) {
        Ok(v) => v,
        Err(_) => {
            return None;
        },
    };
    let quality = dbm_level_to_quality(signal);
    let ies = match bss.get(BSS_INFORMATION_ELEMENTS) {
        Some(p) => p,
        None => {
            return None;
        },
    };
    let ssid_bytes = extract_ssid(ies);
    let ssid = match string_from_utf8(ssid_bytes) {
        Some(s) => s,
        None => {
            return None;
        },
    };
    if ssid.as_str().is_empty() {
        return None;
    }
    Some(Station { ssid, quality })
}

/// The mathematical contents of a vector of stations.
pub open spec fn spec_stations_view(s: Seq<Station>) -> Seq<StationView> {
    Seq::new(s.len(), |i: int| s[i]@)
}

/// The stations of the messages from `k` on, stopping at the dump
/// terminator; messages that yield no station are skipped.
pub open spec fn spec_collect_stations(msgs: Seq<Seq<u8>>, k: int) -> Seq<StationView>
    decreases msgs.len() - k,
{
    if k < 0 || k >= msgs.len() {
        Seq::empty()
    } else if spec_is_done(msgs[k]) {
        Seq::empty()
    } else {
        let rest = spec_collect_stations(msgs, k + 1);
        match spec_station_of_msg(msgs[k]) {
            Some(v) => seq![v] + rest,
            None => rest,
        }
    }
}

/// Whether the messages from `k` on reach the dump terminator.
pub open spec fn spec_results_done(msgs: Seq<Seq<u8>>, k: int) -> bool
    decreases msgs.len() - k,
{
    if k < 0 || k >= msgs.len() {
        false
    } else if spec_is_done(msgs[k]) {
        true
    } else {
        spec_results_done(msgs, k + 1)
    }
}

/// The code of the first acknowledgement message in the batch, if any.
pub open spec fn spec_first_ack(msgs: Seq<Seq<u8>>, k: int) -> Option<i32>
    decreases msgs.len() - k,
{
    if k < 0 || k >= msgs.len() {
        None
    } else {
        match spec_ack_code(msgs[k]) {
            Some(code) => Some(code),
            None => spec_first_ack(msgs, k + 1),
        }
    }
}

/// Whether multicast message `m` carries scan tag `cmd`: it must be long
/// enough to hold a generic-netlink header.
pub open spec fn spec_carries_cmd(m: Seq<u8>, cmd: u8) -> bool {
    m.len() >= 20 && spec_msg_cmd(m) == cmd
}

/// The first scan-relevant tag in the batch: new-results or aborted.
/// All other multicast traffic is ignored.
pub open spec fn spec_first_scan_tag(msgs: Seq<Seq<u8>>, k: int) -> Option<u8>
    decreases msgs.len() - k,
{
    if k < 0 || k >= msgs.len() {
        None
    } else if spec_carries_cmd(msgs[k], CMD_NEW_SCAN_RESULTS) {
        Some(CMD_NEW_SCAN_RESULTS)
    } else if spec_carries_cmd(msgs[k], CMD_SCAN_ABORTED) {
        Some(CMD_SCAN_ABORTED)
    } else {
        spec_first_scan_tag(msgs, k + 1)
    }
}

/// One scan exchange: target interface, current phase, and the stations
/// collected so far.
pub struct ScanSession {
    pub family: u16,
    pub ifindex: u32,
    pub phase: ScanPhase,
    pub stations: Vec<Station>,
}

impl ScanSession {
    /// Every collected station is well-formed.
    pub open spec fn wf(self) -> bool {
        forall|i: int| 0 <= i < self.stations@.len() ==> (#[trigger] self.stations@[i]).wf()
    }

    /// A fresh session for one scan of the interface with index
    /// `ifindex`, addressed to the nl80211 family `family`.
    pub fn new(family: u16, ifindex: u32) -> (s: ScanSession)
        ensures
            s.family == family,
            s.ifindex == ifindex,
            s.phase == ScanPhase::Idle,
            s.stations@.len() == 0,
            s.wf(),
    {
        ScanSession { family, ifindex, phase: ScanPhase::Idle, stations: Vec::new() }
    }

    /// Leave `Idle` and hand out the trigger request: TRIGGER_SCAN with
    /// the interface index and the AP scan flag, acknowledgement asked.
    /// The caller must already hold its multicast subscription.
    pub fn trigger_request(&mut self) -> (r: Vec<u8>)
        requires
            old(self).phase == ScanPhase::Idle,
        ensures
            final(self).phase == ScanPhase::Triggering,
            final(self).family == old(self).family,
            final(self).ifindex == old(self).ifindex,
            final(self).stations == old(self).stations,
            r@ == spec_encode_request(
                old(self).family,
                NLM_F_REQUEST | NLM_F_ACK,
                CMD_TRIGGER_SCAN,
                seq![
                    (ATTR_IFINDEX, spec_u32_le(old(self).ifindex)),
                    (ATTR_SCAN_FLAGS, spec_u32_le(SCAN_FLAG_AP)),
                ],
            ),
    {
        let mut attrs: Vec<(u16, Vec<u8>)> = Vec::new();
        attrs.push((ATTR_IFINDEX, u32_payload(self.ifindex)));
        attrs.push((ATTR_SCAN_FLAGS, u32_payload(SCAN_FLAG_AP)));
        let ghost s = spec_entries_view(attrs@);
        proof {
            assert(s =~= seq![
                (ATTR_IFINDEX, spec_u32_le(self.ifindex)),
                (ATTR_SCAN_FLAGS, spec_u32_le(SCAN_FLAG_AP)),
            ]);
            assert forall|i: int| 0 <= i < s.len() implies (#[trigger] s[i]).1.len() <= 4 by {
                if i == 0 {
                    assert(s[0].1.len() == 4);
                } else {
                    assert(s[1].1.len() == 4);
                }
            }
            lemma_encode_attrs_len(s, 4);
        }
        let r = encode_request(self.family, NLM_F_REQUEST | NLM_F_ACK, CMD_TRIGGER_SCAN, &attrs);
        self.phase = ScanPhase::Triggering;
        r
    }

    /// Take in the response to the trigger. A zero acknowledgement code
    /// advances to the notification wait; a non-zero code is the
    /// kernel's rejection and fails the scan; a batch with no
    /// acknowledgement at all is a receive failure.
    pub fn on_trigger_ack(&mut self, msgs: &Vec<Vec<u8>>) -> (r: Result<(), ScanError>)
        requires
            old(self).phase == ScanPhase::Triggering,
        ensures
            final(self).family == old(self).family,
            final(self).ifindex == old(self).ifindex,
            final(self).stations == old(self).stations,
            match spec_first_ack(spec_msgs_view(msgs@), 0) {
                Some(code) => if code == 0 {
                    r is Ok && final(self).phase == ScanPhase::AwaitingNotification
                } else {
                    r == Err::<(), ScanError>(ScanError::Nack(code)) && final(self).phase
                        == ScanPhase::Failed
                },
                None => r == Err::<(), ScanError>(ScanError::Recv) && final(self).phase
                    == ScanPhase::Failed,
            },
    {
        let ghost v = spec_msgs_view(msgs@);
        let mut k: usize = 0;
        while k < msgs.len()
            invariant
                k <= msgs@.len(),
                v == spec_msgs_view(msgs@),
                spec_first_ack(v, 0) == spec_first_ack(v, k as int),
                self == old(self),
            decreases msgs@.len() - k,
        {
            let m = &msgs[k];
            assert(m@ == v[k as int]);
            match ack_code(m) {
                Some(code) => {
                    if code == 0 {
                        self.phase = ScanPhase::AwaitingNotification;
                        return Ok(());
                    } else {
                        self.phase = ScanPhase::Failed;
                        return Err(ScanError::Nack(code));
                    }
                },
                None => {
                },
            }
            k = k + 1;
        }
        self.phase = ScanPhase::Failed;
        Err(ScanError::Recv)
    }

    /// Take in one multicast batch while waiting for the completion
    /// notification. The first new-results tag advances to fetching;
    /// the first aborted tag parks the session in `AlreadyScanning`;
    /// a batch with neither leaves the wait standing.
    pub fn on_notification(&mut self, msgs: &Vec<Vec<u8>>)
        requires
            old(self).phase == ScanPhase::AwaitingNotification,
        ensures
            final(self).family == old(self).family,
            final(self).ifindex == old(self).ifindex,
            final(self).stations == old(self).stations,
            final(self).phase == match spec_first_scan_tag(spec_msgs_view(msgs@), 0) {
                Some(tag) => if tag == CMD_NEW_SCAN_RESULTS {
                    ScanPhase::FetchingResults
                } else {
                    ScanPhase::AlreadyScanning
                },
                None => ScanPhase::AwaitingNotification,
            },
    {
        let ghost v = spec_msgs_view(msgs@);
        let mut k: usize = 0;
        while k < msgs.len()
            invariant
                k <= msgs@.len(),
                v == spec_msgs_view(msgs@),
                spec_first_scan_tag(v, 0) == spec_first_scan_tag(v, k as int),
                self == old(self),
            decreases msgs@.len() - k,
        {
            let m = &msgs[k];
            assert(m@ == v[k as int]);
            if m.len() >= 20 {
                let cmd = msg_cmd(m);
                if cmd == CMD_NEW_SCAN_RESULTS {
                    self.phase = ScanPhase::FetchingResults;
                    return ;
                }
                if cmd == CMD_SCAN_ABORTED {
                    self.phase = ScanPhase::AlreadyScanning;
                    return ;
                }
            }
            k = k + 1;
        }
    }

    /// The request fetching the results: a GET_SCAN dump scoped to the
    /// target interface.
    pub fn results_request(&self) -> (r: Vec<u8>)
        requires
            self.phase == ScanPhase::FetchingResults,
        ensures
            r@ == spec_encode_request(
                self.family,
                NLM_F_REQUEST | NLM_F_DUMP,
                CMD_GET_SCAN,
                seq![(ATTR_IFINDEX, spec_u32_le(self.ifindex))],
            ),
    {
        let mut attrs: Vec<(u16, Vec<u8>)> = Vec::new();
        attrs.push((ATTR_IFINDEX, u32_payload(self.ifindex)));
        let ghost s = spec_entries_view(attrs@);
        proof {
            assert(s =~= seq![(ATTR_IFINDEX, spec_u32_le(self.ifindex))]);
            assert forall|i: int| 0 <= i < s.len() implies (#[trigger] s[i]).1.len() <= 4 by {
                assert(s[0].1.len() == 4);
            }
            lemma_encode_attrs_len(s, 4);
        }
        encode_request(self.family, NLM_F_REQUEST | NLM_F_DUMP, CMD_GET_SCAN, &attrs)
    }

    /// Take in one batch of the result dump: each message yields a
    /// station or is skipped, until the batch ends or the dump
    /// terminator moves the session to `Done`.
    pub fn on_results(&mut self, msgs: &Vec<Vec<u8>>)
        requires
            old(self).phase == ScanPhase::FetchingResults,
            old(self).wf(),
        ensures
            final(self).family == old(self).family,
            final(self).ifindex == old(self).ifindex,
            final(self).phase == if spec_results_done(spec_msgs_view(msgs@), 0) {
                ScanPhase::Done
            } else {
                ScanPhase::FetchingResults
            },
            spec_stations_view(final(self).stations@) == spec_stations_view(
                old(self).stations@,
            ) + spec_collect_stations(spec_msgs_view(msgs@), 0),
            final(self).wf(),
    {
        let ghost v = spec_msgs_view(msgs@);
        let ghost base = spec_stations_view(old(self).stations@);
        let mut k: usize = 0;
        loop
            invariant_except_break
                k <= msgs@.len(),
                v == spec_msgs_view(msgs@),
                base == spec_stations_view(old(self).stations@),
                self.family == old(self).family,
                self.ifindex == old(self).ifindex,
                self.phase == ScanPhase::FetchingResults,
                self.wf(),
                spec_stations_view(self.stations@) + spec_collect_stations(v, k as int) == base
                    + spec_collect_stations(v, 0),
                spec_results_done(v, k as int) == spec_results_done(v, 0),
            ensures
                self.family == old(self).family,
                self.ifindex == old(self).ifindex,
                self.phase == if spec_results_done(v, 0) {
                    ScanPhase::Done
                } else {
                    ScanPhase::FetchingResults
                },
                spec_stations_view(self.stations@) == base + spec_collect_stations(v, 0),
                self.wf(),
            decreases msgs@.len() - k,
        {
            let ghost acc = spec_stations_view(self.stations@);
            if k >= msgs.len() {
                assert(spec_collect_stations(v, k as int) =~= Seq::<StationView>::empty());
                assert(acc =~= acc + spec_collect_stations(v, k as int));
                break ;
            }
            let m = &msgs[k];
            assert(m@ == v[k as int]);
            if is_done(m) {
                self.phase = ScanPhase::Done;
                assert(spec_collect_stations(v, k as int) =~= Seq::<StationView>::empty());
                assert(acc =~= acc + spec_collect_stations(v, k as int));
                break ;
            }
            match parse_station(m) {
                Some(st) => {
                    let ghost stv = st@;
                    assert(st.wf());
                    self.stations.push(st);
                    proof {
                        assert(spec_stations_view(self.stations@) =~= acc + seq![stv]);
                        assert(spec_collect_stations(v, k as int) =~= seq![stv]
                            + spec_collect_stations(v, k + 1));
                    }
                },
                None => {
                    proof {
                        assert(spec_collect_stations(v, k as int) =~= spec_collect_stations(
                            v,
                            k + 1,
                        ));
                    }
                },
            }
            k = k + 1;
        }
    }
}

} // verus!
