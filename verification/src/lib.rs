//! Verified client logic for discovering wireless networks through the Linux
//! kernel's nl80211 generic-netlink interface.
//!
//! The crate holds the protocol engine: request encoding, attribute decoding,
//! multi-message dump aggregation, information-element parsing and the scan
//! state machine. Socket I/O is left to the caller, who feeds raw message
//! bytes in and sends the encoded request buffers out.

use vstd::prelude::*;

pub mod codec;
pub mod ie;
pub mod interface;
mod quality;
pub mod scan;
pub mod text;

pub use interface::find_by_name;
pub use interface::Interface;
pub use interface::InterfaceDump;
pub use interface::InterfaceType;
pub use quality::dbm_level_to_quality;
pub use quality::lemma_quality_bounds;
pub use quality::lemma_quality_monotonic;
pub use quality::quality_spec;
pub use scan::parse_station;
pub use scan::ScanPhase;
pub use scan::ScanSession;

verus! {

/// One discovered network: its SSID and a normalized quality score.
#[derive(Debug, Clone, PartialEq, Eq, Hash)]
pub struct Station {
    pub ssid: String,
    pub quality: u8,
}

/// The mathematical contents of a [`Station`].
pub struct StationView {
    pub ssid: Seq<char>,
    pub quality: u8,
}

impl View for Station {
    type V = StationView;

    open spec fn view(&self) -> StationView {
        StationView { ssid: self.ssid@, quality: self.quality }
    }
}

impl Station {
    /// A well-formed station has a non-empty SSID and a quality in [0, 100].
    pub open spec fn wf(self) -> bool {
        self.ssid@.len() > 0 && self.quality <= 100
    }
}

/// The failures a scan can end in. Decoding failures name the attribute id
/// they arose on; a rejected trigger carries the kernel's errno-style code.
#[derive(Debug, Clone, Copy, PartialEq, Eq, Structural)]
pub enum ScanError {
    /// Socket creation or family/group resolution failed.
    Setup,
    /// A request could not be handed to the kernel.
    Send,
    /// A response could not be read from the kernel.
    Recv,
    /// A required attribute was absent or of the wrong width.
    Decode(u16),
    /// No enumerated interface carries the requested name.
    InterfaceNotFound,
    /// The kernel answered the scan trigger with a negative acknowledgement.
    Nack(i32),
}

} // verus!
