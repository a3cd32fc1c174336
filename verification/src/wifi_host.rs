//! What the host keeps of the firmware image that it serves a virtual network
//! to: the linked addresses, the queue it has found, the data it answers with,
//! and how far a scripted run has come.

use crate::scan_fixture::{FixtureAp, ScanFixtureAp};
use vstd::prelude::*;

verus! {

/// Linked addresses of a firmware image.
#[derive(Clone, Copy, PartialEq, Eq, Structural)]
pub struct WifiImageLayout {
    /// Entry of the scan and connect calls.
    pub scan_start: u32,
    pub connect: u32,
    /// Variables that hold the event bases.
    pub wifi_event_var: u32,
    pub ip_event_var: u32,
    /// Number of stored access points; the sketch's scan count and record buffer.
    pub count_cell: u32,
    pub scan_count: u32,
    pub scan_result: u32,
    /// Return check of the records call.
    pub records_check: u32,
    /// Scheduler ready lists and top ready priority.
    pub ready_lists: u32,
    pub top_prio: u32,
    /// Heap list head, current task of each core, station interface.
    pub reg_heaps: u32,
    pub pxcur: u32,
    pub sta_network_if: u32,
}

/// Station image.
pub open spec fn sta_layout() -> WifiImageLayout {
    WifiImageLayout {
        scan_start: 0x4206_3b78,
        connect: 0x4203_c7c4,
        wifi_event_var: 0x3c0b_42bc,
        ip_event_var: 0x3c0b_3bb8,
        count_cell: 0x3fc9_f926,
        scan_count: 0x3fc9_aee4,
        scan_result: 0x3fc9_aee0,
        records_check: 0x4200_3f9c,
        ready_lists: 0x3fc9_b8dc,
        top_prio: 0x3fc9_b84c,
        reg_heaps: 0x3fc9_b794,
        pxcur: 0x3fc9_bad0,
        sta_network_if: 0x3fc9_ae6c,
    }
}

/// Scan image.
pub open spec fn scan_layout() -> WifiImageLayout {
    WifiImageLayout {
        scan_start: 0x4206_3b90,
        connect: 0x4203_c84c,
        wifi_event_var: 0x3c0b_4264,
        ip_event_var: 0x3c0b_3b60,
        count_cell: 0x3fc9_f93e,
        scan_count: 0x3fc9_aef4,
        scan_result: 0x3fc9_aef0,
        records_check: 0x4200_3ee0,
        ready_lists: 0x3fc9_b8f4,
        top_prio: 0x3fc9_b864,
        reg_heaps: 0x3fc9_b7ac,
        pxcur: 0x3fc9_b7e0,
        sta_network_if: 0x3fc9_ae7c,
    }
}

/// Progress of a scripted run.
#[derive(Clone, Copy, PartialEq, Eq, Structural)]
pub struct WifiFixtureState {
    pub scan_armed: bool,
    pub scan_done: bool,
    pub records_done: bool,
    pub sta_armed: bool,
    pub sta_done: bool,
    pub sta_stage: u8,
    pub sta_ip_done: bool,
    pub disc_armed: bool,
    pub disc_done: bool,
}

/// A run that has not begun.
pub open spec fn fresh_run() -> WifiFixtureState {
    WifiFixtureState {
        scan_armed: false,
        scan_done: false,
        records_done: false,
        sta_armed: false,
        sta_done: false,
        sta_stage: 0,
        sta_ip_done: false,
        disc_armed: false,
        disc_done: false,
    }
}

/// A run that has not begun.
pub fn new_run() -> (st: WifiFixtureState)
    ensures
        st == fresh_run(),
{
    WifiFixtureState {
        scan_armed: false,
        scan_done: false,
        records_done: false,
        sta_armed: false,
        sta_done: false,
        sta_stage: 0,
        sta_ip_done: false,
        disc_armed: false,
        disc_done: false,
    }
}

/// A scripted run: the access points in the air, the address handed out, and
/// the progress.
#[verifier::ext_equal]
pub struct FixtureState {
    pub aps: Seq<FixtureAp>,
    pub ip: Seq<u8>,
    pub st: WifiFixtureState,
}

/// A scripted run.
pub struct WifiFixture {
    pub aps: Vec<ScanFixtureAp>,
    pub ip: [u8; 4],
    pub st: WifiFixtureState,
}

impl View for WifiFixture {
    type V = FixtureState;

    open spec fn view(&self) -> FixtureState {
        FixtureState { aps: crate::scan_fixture::views(self.aps@), ip: self.ip@, st: self.st }
    }
}

/// The host's side.
#[verifier::ext_equal]
pub struct HostState {
    /// The station image runs; else the scan image.
    pub image_sta: bool,
    /// Linked addresses, where known.
    pub reg_heaps: Option<u32>,
    pub pxcur: Option<u32>,
    pub network: Option<u32>,
    pub event_var: Option<u32>,
    pub ip_event_var: Option<u32>,
    /// Application event queue and the task waiting on it, once found.
    pub ard_queue: Option<u32>,
    pub ard_waiter: Option<u32>,
    /// Event blocks used up.
    pub ard_slot: u32,
    /// Record and interface address that the hooks answer with.
    pub ap_record: Option<Seq<u8>>,
    pub ip_info: Option<Seq<u8>>,
    /// Records served.
    pub ap_reads: u32,
    /// A disconnect call has been seen.
    pub disc_fired: bool,
    pub fixture: Option<FixtureState>,
}

impl HostState {
    pub open spec fn reset() -> HostState {
        HostState {
            image_sta: false,
            reg_heaps: None,
            pxcur: None,
            network: None,
            event_var: None,
            ip_event_var: None,
            ard_queue: None,
            ard_waiter: None,
            ard_slot: 0,
            ap_record: None,
            ip_info: None,
            ap_reads: 0,
            disc_fired: false,
            fixture: None,
        }
    }

    pub open spec fn layout(self) -> WifiImageLayout {
        if self.image_sta {
            sta_layout()
        } else {
            scan_layout()
        }
    }

    /// The linked addresses of the selected image are in force.
    pub open spec fn with_layout(self) -> HostState {
        HostState {
            reg_heaps: Some(self.layout().reg_heaps),
            pxcur: Some(self.layout().pxcur),
            network: Some(self.layout().sta_network_if),
            event_var: Some(self.layout().wifi_event_var),
            ip_event_var: Some(self.layout().ip_event_var),
            ..self
        }
    }
}

/// The host's side.
pub struct WifiHost {
    pub image_sta: bool,
    pub reg_heaps: Option<u32>,
    pub pxcur: Option<u32>,
    pub network: Option<u32>,
    pub event_var: Option<u32>,
    pub ip_event_var: Option<u32>,
    pub ard_queue: Option<u32>,
    pub ard_waiter: Option<u32>,
    pub ard_slot: u32,
    pub ap_record: Option<[u8; 92]>,
    pub ip_info: Option<[u8; 12]>,
    pub ap_reads: u32,
    pub disc_fired: bool,
    pub fixture: Option<WifiFixture>,
}

impl View for WifiHost {
    type V = HostState;

    open spec fn view(&self) -> HostState {
        HostState {
            image_sta: self.image_sta,
            reg_heaps: self.reg_heaps,
            pxcur: self.pxcur,
            network: self.network,
            event_var: self.event_var,
            ip_event_var: self.ip_event_var,
            ard_queue: self.ard_queue,
            ard_waiter: self.ard_waiter,
            ard_slot: self.ard_slot,
            ap_record: match self.ap_record {
                Some(r) => Some(r@),
                None => None,
            },
            ip_info: match self.ip_info {
                Some(r) => Some(r@),
                None => None,
            },
            ap_reads: self.ap_reads,
            disc_fired: self.disc_fired,
            fixture: match self.fixture {
                Some(f) => Some(f@),
                None => None,
            },
        }
    }
}

impl WifiHost {
    pub fn new() -> (h: Self)
        ensures
            h@ == HostState::reset(),
    {
        WifiHost {
            image_sta: false,
            reg_heaps: None,
            pxcur: None,
            network: None,
            event_var: None,
            ip_event_var: None,
            ard_queue: None,
            ard_waiter: None,
            ard_slot: 0,
            ap_record: None,
            ip_info: None,
            ap_reads: 0,
            disc_fired: false,
            fixture: None,
        }
    }

    /// Linked addresses of the selected image.
    pub fn layout(&self) -> (l: WifiImageLayout)
        ensures
            l == self@.layout(),
    {
        if self.image_sta {
            WifiImageLayout {
                scan_start: 0x4206_3b78,
                connect: 0x4203_c7c4,
                wifi_event_var: 0x3c0b_42bc,
                ip_event_var: 0x3c0b_3bb8,
                count_cell: 0x3fc9_f926,
                scan_count: 0x3fc9_aee4,
                scan_result: 0x3fc9_aee0,
                records_check: 0x4200_3f9c,
                ready_lists: 0x3fc9_b8dc,
                top_prio: 0x3fc9_b84c,
                reg_heaps: 0x3fc9_b794,
                pxcur: 0x3fc9_bad0,
                sta_network_if: 0x3fc9_ae6c,
            }
        } else {
            WifiImageLayout {
                scan_start: 0x4206_3b90,
                connect: 0x4203_c84c,
                wifi_event_var: 0x3c0b_4264,
                ip_event_var: 0x3c0b_3b60,
                count_cell: 0x3fc9_f93e,
                scan_count: 0x3fc9_aef4,
                scan_result: 0x3fc9_aef0,
                records_check: 0x4200_3ee0,
                ready_lists: 0x3fc9_b8f4,
                top_prio: 0x3fc9_b864,
                reg_heaps: 0x3fc9_b7ac,
                pxcur: 0x3fc9_b7e0,
                sta_network_if: 0x3fc9_ae7c,
            }
        }
    }

    /// Put the linked addresses of the selected image in force.
    pub fn apply_layout(&mut self)
        ensures
            final(self)@ == old(self)@.with_layout(),
    {
        let l = self.layout();
        self.reg_heaps = Some(l.reg_heaps);
        self.pxcur = Some(l.pxcur);
        self.network = Some(l.sta_network_if);
        self.event_var = Some(l.wifi_event_var);
        self.ip_event_var = Some(l.ip_event_var);
    }
}

} // verus!
