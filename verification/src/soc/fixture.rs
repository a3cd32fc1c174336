//! A scripted network run: the host answers the firmware's scan, connect and
//! disconnect calls from a list of access points.
//!
//! The run is driven by the program counters of the two cores. A scan ends after
//! its dwell time with the number of access points stored and the event posted;
//! the records are handed over when the firmware comes to fetch them. A connect
//! posts the connection at once, then the address as soon as the firmware's
//! interface is there. A disconnect is answered once the firmware has read the
//! access-point data and its event queue is empty.

use super::{Soc, SocState};
use super::net::{ip_byte_of, record_byte_of};
use crate::bytes::lane;
use crate::scan_fixture::{parse_scan_fixtures, FixtureAp, ScanFixtureAp};
use crate::wifi_host::{
    new_run, FixtureState, HostState, WifiFixture, WifiFixtureState, WifiImageLayout,
};
use vstd::prelude::*;

verus! {

broadcast use crate::soc::sizes::lemma_sized;

/// Event numbers.
pub const STA_CONNECTED_ID: u32 = 4;

pub const STA_DISCONNECTED_ID: u32 = 5;

pub const GOT_IP_ID: u32 = 0;

/// Application event numbers.
pub const ARD_GOT_IP: u32 = 115;

pub const ARD_DISCONNECTED: u32 = 113;

/// Disconnect reason: the station leaves.
pub const REASON_ASSOC_LEAVE: u8 = 8;

/// Access points handed over at most.
pub const MAX_RECORDS: usize = 8;

/// Access point that a run without any falls back to: `EmuNet`, channel 6,
/// -50 dBm, 02:11:22:33:44:55.
pub open spec fn default_ap() -> FixtureAp {
    FixtureAp {
        ssid: Seq::new(32, |i: int| default_ssid_byte(i)),
        ssid_len: 6,
        bssid: seq![0x02u8, 0x11, 0x22, 0x33, 0x44, 0x55],
        chan: 6,
        rssi: -50i8,
    }
}

/// Byte `i` of the fallback SSID.
pub open spec fn default_ssid_byte(i: int) -> u8 {
    if i == 0 {
        0x45
    } else if i == 1 {
        0x6D
    } else if i == 2 {
        0x75
    } else if i == 3 {
        0x4E
    } else if i == 4 {
        0x65
    } else if i == 5 {
        0x74
    } else {
        0
    }
}

/// Access point that a run connects to: its first, else the fallback.
pub open spec fn chosen_ap(aps: Seq<FixtureAp>) -> FixtureAp {
    if aps.len() > 0 {
        aps[0]
    } else {
        default_ap()
    }
}

/// Byte `k` of the connection data: SSID, its length, BSSID; then channel, WPA2,
/// association number one, or for a disconnect the reason.
pub open spec fn station_byte(ap: FixtureAp, connected: bool, k: int) -> u8 {
    if 0 <= k < crate::soc::net::ssid_stored(ap) {
        ap.ssid[k]
    } else if k == 32 {
        ap.ssid_len
    } else if 33 <= k < 39 {
        ap.bssid[k - 33]
    } else if k == 39 {
        if connected {
            ap.chan
        } else {
            REASON_ASSOC_LEAVE
        }
    } else if k == 40 && connected {
        3
    } else if k == 44 && connected {
        1
    } else {
        0
    }
}

/// The first `n` bytes of the connection data.
pub open spec fn station_data(ap: FixtureAp, connected: bool, n: nat) -> Seq<u8> {
    Seq::new(n, |k: int| station_byte(ap, connected, k))
}

/// Byte `k` of the address data: interface, address, mask, gateway, changed.
pub open spec fn address_byte(netif: u32, ip: Seq<u8>, k: int) -> u8 {
    if 0 <= k < 4 {
        crate::bytes::byte_lane(netif, k as u32)
    } else if 4 <= k < 16 {
        crate::soc::net::ip_byte(ip, k - 4)
    } else if k == 16 {
        1
    } else {
        0
    }
}

/// The first `n` bytes of the address data.
pub open spec fn address_data(netif: u32, ip: Seq<u8>, n: nat) -> Seq<u8> {
    Seq::new(n, |k: int| address_byte(netif, ip, k))
}

/// The smaller of the number of access points and the number handed over.
pub open spec fn records(aps: Seq<FixtureAp>) -> int {
    if aps.len() <= MAX_RECORDS {
        aps.len() as int
    } else {
        MAX_RECORDS as int
    }
}

impl SocState {
    /// The task woken by a post, if any, is made ready.
    pub open spec fn woken_ready(r: (Option<u32>, SocState), l: WifiImageLayout) -> SocState {
        match r.0 {
            Some(t) => r.1.readied(t, l.ready_lists, l.top_prio),
            None => r.1,
        }
    }

    /// The data that the hooks answer with is staged.
    pub open spec fn sta_staged(self, ap: FixtureAp, ip: Seq<u8>) -> SocState {
        self.with_host(
            HostState {
                ap_record: Some(Seq::new(92, |k: int| crate::soc::net::record_byte(ap, k))),
                ip_info: Some(Seq::new(12, |k: int| crate::soc::net::ip_byte(ip, k))),
                ..self.host
            },
        )
    }

    /// Scan leg: the dwell starts at the scan call; when it has run, the number
    /// of access points is stored and the event posted.
    #[verifier::opaque]
    pub open spec fn scan_leg(
        self,
        st: WifiFixtureState,
        aps: Seq<FixtureAp>,
        l: WifiImageLayout,
        pc0: u32,
        pc1: u32,
    ) -> (WifiFixtureState, SocState) {
        let arm = !st.scan_done && !st.scan_armed && (pc0 == l.scan_start || pc1 == l.scan_start);
        let s1 = if arm {
            SocState { wifi: self.wifi.scan_begun(), ..self }
        } else {
            self
        };
        let st1 = WifiFixtureState { scan_armed: st.scan_armed || arm, ..st };
        if st1.scan_done || !st1.scan_armed {
            (st1, s1)
        } else {
            let s2 = SocState { wifi: s1.wifi.after_scan_complete(), ..s1 };
            if s1.wifi.scan_complete() {
                let s3 = if aps.len() > 0 {
                    s2.write16(l.count_cell, records(aps) as u32)
                } else {
                    s2
                };
                (
                    WifiFixtureState { scan_done: true, ..st1 },
                    SocState::woken_ready(
                        s3.event_posted(l.wifi_event_var, crate::soc::net::SCAN_DONE_ID),
                        l,
                    ),
                )
            } else {
                (st1, s2)
            }
        }
    }

    /// The first `n` records are written into the buffer.
    pub open spec fn records_written(self, buf: u32, aps: Seq<FixtureAp>, n: nat) -> SocState
        decreases n,
    {
        if n == 0 {
            self
        } else {
            self.records_written(buf, aps, (n - 1) as nat).record_written(
                buf,
                (n - 1) as u32,
                aps[n - 1],
            )
        }
    }

    /// A core at `pc` may have come to fetch the records: if so and its buffer is
    /// there, the records and their number are written. Whether they were comes
    /// first.
    pub open spec fn records_fetched(self, aps: Seq<FixtureAp>, l: WifiImageLayout, pc: u32) -> (
        bool,
        SocState,
    ) {
        if pc != l.records_check {
            (false, self)
        } else {
            let buf = self.read32(l.scan_result);
            let s1 = self.after_read32(l.scan_result);
            if buf == 0 {
                (false, s1)
            } else {
                let n = records(aps);
                (
                    true,
                    s1.records_written(buf, aps, n as nat).write16(
                        l.count_cell,
                        n as u32,
                    ).write16(l.scan_count, n as u32),
                )
            }
        }
    }

    /// Records leg.
    #[verifier::opaque]
    pub open spec fn records_leg(
        self,
        st: WifiFixtureState,
        aps: Seq<FixtureAp>,
        l: WifiImageLayout,
        pc0: u32,
        pc1: u32,
    ) -> (WifiFixtureState, SocState) {
        if !st.scan_done || st.records_done || aps.len() == 0 {
            (st, self)
        } else {
            let (done0, s1) = self.records_fetched(aps, l, pc0);
            if done0 {
                (WifiFixtureState { records_done: true, ..st }, s1)
            } else {
                let (done1, s2) = s1.records_fetched(aps, l, pc1);
                (WifiFixtureState { records_done: done1, ..st }, s2)
            }
        }
    }

    /// Connect leg: the connection is posted at the connect call, and if it was
    /// not taken then, once more when the dwell has run.
    #[verifier::opaque]
    pub open spec fn connect_leg(
        self,
        st: WifiFixtureState,
        aps: Seq<FixtureAp>,
        l: WifiImageLayout,
        pc0: u32,
        pc1: u32,
    ) -> (WifiFixtureState, SocState) {
        let arm = !st.sta_done && !st.sta_armed && (pc0 == l.connect || pc1 == l.connect);
        let s1 = if arm {
            SocState { wifi: self.wifi.scan_begun(), ..self }
        } else {
            self
        };
        let st1 = WifiFixtureState { sta_armed: st.sta_armed || arm, ..st };
        if st1.sta_done || !st1.sta_armed || st1.sta_stage != 0 {
            (st1, s1)
        } else {
            let due = arm || s1.wifi.scan_complete();
            let s2 = if arm {
                s1
            } else {
                SocState { wifi: s1.wifi.after_scan_complete(), ..s1 }
            };
            if !due {
                (st1, s2)
            } else {
                let r = s2.event_data_posted(
                    l.wifi_event_var,
                    STA_CONNECTED_ID,
                    station_data(chosen_ap(aps), true, 48),
                );
                (
                    if r.0 is Some {
                        WifiFixtureState { sta_stage: 1, sta_done: true, ..st1 }
                    } else {
                        st1
                    },
                    SocState::woken_ready(r, l),
                )
            }
        }
    }

    /// Address leg: once connected and the interface is there, the address is
    /// posted to both event queues; the application queue decides.
    #[verifier::opaque]
    pub open spec fn address_leg(
        self,
        st: WifiFixtureState,
        aps: Seq<FixtureAp>,
        ip: Seq<u8>,
        l: WifiImageLayout,
    ) -> (WifiFixtureState, SocState) {
        if st.sta_stage != 1 || st.sta_ip_done {
            (st, self)
        } else {
            let (netif, s1) = self.sta_netif();
            if netif == 0 {
                (st, s1)
            } else {
                let s2 = SocState::woken_ready(
                    s1.event_data_posted(l.ip_event_var, GOT_IP_ID, address_data(netif, ip, 20)),
                    l,
                );
                let (sent, s3) = s2.ard_posted(
                    ARD_GOT_IP,
                    address_data(netif, ip, 44),
                    l.ready_lists,
                    l.top_prio,
                );
                if sent {
                    (
                        WifiFixtureState { sta_ip_done: true, ..st },
                        s3.sta_staged(chosen_ap(aps), ip),
                    )
                } else {
                    (st, s3)
                }
            }
        }
    }

    /// Disconnect leg: a disconnect call seen after both reads of the
    /// access-point data arms it; an earlier one is forgotten. It is posted to
    /// both event queues until both have taken it.
    #[verifier::opaque]
    pub open spec fn disconnect_leg(
        self,
        st: WifiFixtureState,
        aps: Seq<FixtureAp>,
        l: WifiImageLayout,
    ) -> (WifiFixtureState, SocState) {
        if !st.sta_ip_done || st.disc_done {
            (st, self)
        } else {
            let arm = self.host.ap_reads >= 2 && self.host.disc_fired;
            let s1 = self.with_host(HostState { disc_fired: false, ..self.host });
            let st1 = WifiFixtureState { disc_armed: st.disc_armed || arm, ..st };
            if !st1.disc_armed {
                (st1, s1)
            } else {
                let (idle, s2) = s1.ard_idle();
                if !idle {
                    (st1, s2)
                } else {
                    let ap = chosen_ap(aps);
                    let r = s2.event_data_posted(
                        l.wifi_event_var,
                        STA_DISCONNECTED_ID,
                        station_data(ap, false, 48),
                    );
                    let (sent, s3) = SocState::woken_ready(r, l).ard_posted(
                        ARD_DISCONNECTED,
                        station_data(ap, false, 44),
                        l.ready_lists,
                        l.top_prio,
                    );
                    (WifiFixtureState { disc_done: r.0 is Some && sent, ..st1 }, s3)
                }
            }
        }
    }

    /// All legs in order.
    pub open spec fn run_stepped(self, f: FixtureState, l: WifiImageLayout, pc0: u32, pc1: u32) -> (
        WifiFixtureState,
        SocState,
    ) {
        let (st1, s1) = self.scan_leg(f.st, f.aps, l, pc0, pc1);
        let (st2, s2) = s1.records_leg(st1, f.aps, l, pc0, pc1);
        let (st3, s3) = s2.connect_leg(st2, f.aps, l, pc0, pc1);
        let (st4, s4) = s3.address_leg(st3, f.aps, f.ip, l);
        s4.disconnect_leg(st4, f.aps, l)
    }

    /// One step of the run, if there is one, with the cores at `pc0` and `pc1`.
    pub open spec fn polled_run(self, pc0: u32, pc1: u32) -> SocState {
        match self.host.fixture {
            None => self,
            Some(f) => {
                let (st, s) = self.run_stepped(f, self.host.layout(), pc0, pc1);
                s.with_host(
                    HostState { fixture: Some(FixtureState { st: st, ..f }), ..s.host },
                )
            },
        }
    }
}

fn make_default_ap() -> (ap: ScanFixtureAp)
    ensures
        ap@ == default_ap(),
{
    let mut ssid: [u8; 32] = [0u8; 32];
    ssid[0] = 0x45;
    ssid[1] = 0x6D;
    ssid[2] = 0x75;
    ssid[3] = 0x4E;
    ssid[4] = 0x65;
    ssid[5] = 0x74;
    let ap = ScanFixtureAp {
        ssid,
        ssid_len: 6,
        bssid: [0x02, 0x11, 0x22, 0x33, 0x44, 0x55],
        chan: 6,
        rssi: -50,
    };
    assert(ap@ =~= default_ap());
    ap
}

fn choose_ap(aps: &Vec<ScanFixtureAp>) -> (ap: ScanFixtureAp)
    ensures
        ap@ == chosen_ap(crate::scan_fixture::views(aps@)),
{
    if aps.len() > 0 {
        aps[0]
    } else {
        make_default_ap()
    }
}

fn copy_aps(aps: &Vec<ScanFixtureAp>) -> (r: Vec<ScanFixtureAp>)
    ensures
        r@ == aps@,
{
    let mut r: Vec<ScanFixtureAp> = Vec::new();
    let mut i: usize = 0;
    while i < aps.len()
        invariant
            i <= aps@.len(),
            r@ == aps@.subrange(0, i as int),
        decreases aps@.len() - i,
    {
        r.push(aps[i]);
        i = i + 1;
        assert(r@ =~= aps@.subrange(0, i as int));
    }
    assert(r@ =~= aps@);
    r
}

fn station_byte_of(ap: &ScanFixtureAp, connected: bool, k: usize) -> (b: u8)
    ensures
        b == station_byte(ap@, connected, k as int),
{
    let n: usize = if ap.ssid_len <= 32 {
        ap.ssid_len as usize
    } else {
        32
    };
    if k < n {
        ap.ssid[k]
    } else if k == 32 {
        ap.ssid_len
    } else if 33 <= k && k < 39 {
        ap.bssid[k - 33]
    } else if k == 39 {
        if connected {
            ap.chan
        } else {
            REASON_ASSOC_LEAVE
        }
    } else if k == 40 && connected {
        3
    } else if k == 44 && connected {
        1
    } else {
        0
    }
}

fn build_station48(ap: &ScanFixtureAp, connected: bool) -> (data: [u8; 48])
    ensures
        data@ == station_data(ap@, connected, 48),
{
    let mut data: [u8; 48] = [0u8; 48];
    let mut k: usize = 0;
    while k < 48
        invariant
            k <= 48,
            forall|i: int| 0 <= i < k ==> data@[i] == station_byte(ap@, connected, i),
        decreases 48 - k,
    {
        data[k] = station_byte_of(ap, connected, k);
        k = k + 1;
    }
    assert(data@ =~= station_data(ap@, connected, 48));
    data
}

fn build_station44(ap: &ScanFixtureAp, connected: bool) -> (data: [u8; 44])
    ensures
        data@ == station_data(ap@, connected, 44),
{
    let mut data: [u8; 44] = [0u8; 44];
    let mut k: usize = 0;
    while k < 44
        invariant
            k <= 44,
            forall|i: int| 0 <= i < k ==> data@[i] == station_byte(ap@, connected, i),
        decreases 44 - k,
    {
        data[k] = station_byte_of(ap, connected, k);
        k = k + 1;
    }
    assert(data@ =~= station_data(ap@, connected, 44));
    data
}

fn address_byte_of(netif: u32, ip: &[u8; 4], k: usize) -> (b: u8)
    ensures
        b == address_byte(netif, ip@, k as int),
{
    if k < 4 {
        lane(netif, k as u32)
    } else if k < 16 {
        ip_byte_of(ip, k - 4)
    } else if k == 16 {
        1
    } else {
        0
    }
}

fn build_address20(netif: u32, ip: &[u8; 4]) -> (data: [u8; 20])
    ensures
        data@ == address_data(netif, ip@, 20),
{
    let mut data: [u8; 20] = [0u8; 20];
    let mut k: usize = 0;
    while k < 20
        invariant
            k <= 20,
            forall|i: int| 0 <= i < k ==> data@[i] == address_byte(netif, ip@, i),
        decreases 20 - k,
    {
        data[k] = address_byte_of(netif, ip, k);
        k = k + 1;
    }
    assert(data@ =~= address_data(netif, ip@, 20));
    data
}

fn build_address44(netif: u32, ip: &[u8; 4]) -> (data: [u8; 44])
    ensures
        data@ == address_data(netif, ip@, 44),
{
    let mut data: [u8; 44] = [0u8; 44];
    let mut k: usize = 0;
    while k < 44
        invariant
            k <= 44,
            forall|i: int| 0 <= i < k ==> data@[i] == address_byte(netif, ip@, i),
        decreases 44 - k,
    {
        data[k] = address_byte_of(netif, ip, k);
        k = k + 1;
    }
    assert(data@ =~= address_data(netif, ip@, 44));
    data
}

impl Soc {
    /// Set the linked addresses that are given; the others stay.
    pub fn wifi_layout_set(
        &mut self,
        reg_heaps: Option<u32>,
        pxcur: Option<u32>,
        network: Option<u32>,
        event_var: Option<u32>,
        ip_event_var: Option<u32>,
    )
        requires
            old(self)@.wf(),
        ensures
            final(self)@ == old(self)@.with_host(
                HostState {
                    reg_heaps: given(reg_heaps, old(self)@.host.reg_heaps),
                    pxcur: given(pxcur, old(self)@.host.pxcur),
                    network: given(network, old(self)@.host.network),
                    event_var: given(event_var, old(self)@.host.event_var),
                    ip_event_var: given(ip_event_var, old(self)@.host.ip_event_var),
                    ..old(self)@.host
                },
            ),
            final(self)@.wf(),
    {
        reveal(SocState::wf);
        if reg_heaps.is_some() {
            self.host.reg_heaps = reg_heaps;
        }
        if pxcur.is_some() {
            self.host.pxcur = pxcur;
        }
        if network.is_some() {
            self.host.network = network;
        }
        if event_var.is_some() {
            self.host.event_var = event_var;
        }
        if ip_event_var.is_some() {
            self.host.ip_event_var = ip_event_var;
        }
    }

    /// Stage the data that the hooks answer with.
    pub fn wifi_stage_sta_data(&mut self, ap: &ScanFixtureAp, ip: [u8; 4])
        requires
            old(self)@.wf(),
        ensures
            final(self)@ == old(self)@.sta_staged(ap@, ip@),
            final(self)@.wf(),
    {
        let mut rec: [u8; 92] = [0u8; 92];
        let mut k: usize = 0;
        while k < 92
            invariant
                k <= 92,
                forall|i: int| 0 <= i < k ==> rec@[i] == crate::soc::net::record_byte(ap@, i),
            decreases 92 - k,
        {
            rec[k] = record_byte_of(ap, k);
            k = k + 1;
        }
        let mut info: [u8; 12] = [0u8; 12];
        let mut j: usize = 0;
        while j < 12
            invariant
                j <= 12,
                forall|i: int| 0 <= i < j ==> info@[i] == crate::soc::net::ip_byte(ip@, i),
            decreases 12 - j,
        {
            info[j] = ip_byte_of(&ip, j);
            j = j + 1;
        }
        self.host.ap_record = Some(rec);
        self.host.ip_info = Some(info);
        reveal(SocState::wf);
        assert(rec@ =~= Seq::new(92, |k: int| crate::soc::net::record_byte(ap@, k)));
        assert(info@ =~= Seq::new(12, |k: int| crate::soc::net::ip_byte(ip@, k)));
        assert(self@ =~= old(self)@.sta_staged(ap@, ip@));
    }

    /// Answer the address call: write address, mask and gateway to `out`.
    /// Nothing is done before the data is staged.
    pub fn wifi_hook_get_ip_info(&mut self, out: u32) -> (r: bool)
        requires
            old(self)@.wf(),
        ensures
            r == (old(self)@.host.ip_info is Some),
            final(self)@ == match old(self)@.host.ip_info {
                Some(info) => old(self)@.bytes_written(out, info, 12),
                None => old(self)@,
            },
            final(self)@.wf(),
    {
        match self.host.ip_info {
            Some(info) => {
                self.write_bytes(out, info.as_slice(), 12);
                true
            },
            None => false,
        }
    }

    /// Answer the access-point call: write the record to `out` and count it.
    /// Nothing is done before the data is staged.
    pub fn wifi_hook_get_ap_info(&mut self, out: u32) -> (r: bool)
        requires
            old(self)@.wf(),
        ensures
            r == (old(self)@.host.ap_record is Some),
            final(self)@ == match old(self)@.host.ap_record {
                Some(rec) => {
                    let s = old(self)@.bytes_written(out, rec, 92);
                    s.with_host(
                        HostState { ap_reads: s.host.ap_reads.wrapping_add(1), ..s.host },
                    )
                },
                None => old(self)@,
            },
            final(self)@.wf(),
    {
        match self.host.ap_record {
            Some(rec) => {
                self.write_bytes(out, rec.as_slice(), 92);
                let ghost s = self@;
                self.host.ap_reads = self.host.ap_reads.wrapping_add(1);
                reveal(SocState::wf);
                assert(self@ =~= s.with_host(
                    HostState { ap_reads: s.host.ap_reads.wrapping_add(1), ..s.host },
                ));
                true
            },
            None => false,
        }
    }

    /// The firmware has read both the name and the signal strength.
    pub fn wifi_hook_rssi_done(&self) -> (r: bool)
        requires
            self@.wf(),
        ensures
            r == (self@.host.ap_reads >= 2),
    {
        self.host.ap_reads >= 2
    }

    /// The disconnect call is answered here.
    pub fn wifi_hook_disconnect(&mut self) -> (r: bool)
        requires
            old(self)@.wf(),
        ensures
            r == (old(self)@.host.ap_record is Some),
            final(self)@ == old(self)@,
            final(self)@.wf(),
    {
        self.host.ap_record.is_some()
    }

    /// Take the note of a disconnect call.
    pub fn wifi_take_disconnect(&mut self) -> (r: bool)
        requires
            old(self)@.wf(),
        ensures
            r == old(self)@.host.disc_fired,
            final(self)@ == old(self)@.with_host(
                HostState { disc_fired: false, ..old(self)@.host },
            ),
            final(self)@.wf(),
    {
        reveal(SocState::wf);
        let r = self.host.disc_fired;
        self.host.disc_fired = false;
        assert(self@ =~= old(self)@.with_host(HostState { disc_fired: false, ..old(self)@.host }));
        r
    }

    /// Note a disconnect call.
    pub fn wifi_notify_disconnect(&mut self)
        requires
            old(self)@.wf(),
        ensures
            final(self)@ == old(self)@.with_host(HostState { disc_fired: true, ..old(self)@.host }),
            final(self)@.wf(),
    {
        reveal(SocState::wf);
        self.host.disc_fired = true;
        assert(self@ =~= old(self)@.with_host(HostState { disc_fired: true, ..old(self)@.host }));
    }

    /// Put the linked addresses of the selected image in force again.
    pub fn wifi_fixture_layout_reapply(&mut self)
        requires
            old(self)@.wf(),
        ensures
            final(self)@ == old(self)@.with_host(old(self)@.host.with_layout()),
            final(self)@.wf(),
    {
        reveal(SocState::wf);
        self.host.apply_layout();
        assert(self@ =~= old(self)@.with_host(old(self)@.host.with_layout()));
    }

    /// Select the image, and put its linked addresses in force.
    pub fn wifi_fixture_image(&mut self, is_sta: bool)
        requires
            old(self)@.wf(),
        ensures
            final(self)@ == old(self)@.with_host(
                HostState { image_sta: is_sta, ..old(self)@.host }.with_layout(),
            ),
            final(self)@.wf(),
    {
        reveal(SocState::wf);
        self.host.image_sta = is_sta;
        self.host.apply_layout();
        assert(self@ =~= old(self)@.with_host(
            HostState { image_sta: is_sta, ..old(self)@.host }.with_layout(),
        ));
    }

    fn start_run(&mut self, aps: Vec<ScanFixtureAp>)
        requires
            old(self)@.wf(),
        ensures
            final(self)@ == old(self)@.run_started(crate::scan_fixture::views(aps@)),
            final(self)@.wf(),
    {
        reveal(SocState::wf);
        self.host.fixture = Some(WifiFixture { aps, ip: [192, 168, 4, 2], st: new_run() });
        assert(self@.host.fixture->0.ip =~= seq![192u8, 168, 4, 2]);
        assert(self@ =~= old(self)@.run_started(crate::scan_fixture::views(aps@)));
    }

    /// Start a scan run with the access points listed in `aps_spec`.
    pub fn wifi_fixture_scan(&mut self, aps_spec: &str)
        requires
            old(self)@.wf(),
        ensures
            final(self)@ == old(self)@.run_started(
                crate::scan_fixture::parsed_list(vstd::utf8::encode_utf8(aps_spec@)),
            ),
            final(self)@.wf(),
    {
        let aps: Vec<ScanFixtureAp> = parse_scan_fixtures(aps_spec);
        self.start_run(aps);
    }

    /// Start a station run with the access points listed in `aps_spec`, or with
    /// the fallback where there are none.
    pub fn wifi_fixture_sta(&mut self, aps_spec: &str)
        requires
            old(self)@.wf(),
        ensures
            final(self)@ == old(self)@.run_started(
                or_default(crate::scan_fixture::parsed_list(vstd::utf8::encode_utf8(aps_spec@))),
            ),
            final(self)@.wf(),
    {
        let mut aps: Vec<ScanFixtureAp> = parse_scan_fixtures(aps_spec);
        let ghost listed = crate::scan_fixture::views(aps@);
        if aps.len() == 0 {
            aps.push(make_default_ap());
        }
        assert(crate::scan_fixture::views(aps@) =~= or_default(listed));
        self.start_run(aps);
    }

    /// Program counter at which the records are handed over; 0 without a run.
    pub fn wifi_fixture_records_pc(&self) -> (pc: u32)
        requires
            self@.wf(),
        ensures
            pc == if self@.host.fixture is Some {
                self@.host.layout().records_check
            } else {
                0
            },
    {
        if self.host.fixture.is_some() {
            self.host.layout().records_check
        } else {
            0
        }
    }

    /// The records have been handed over.
    pub fn wifi_fixture_records_staged(&self) -> (r: bool)
        requires
            self@.wf(),
        ensures
            r == (self@.host.fixture matches Some(f) && f.st.records_done),
    {
        match &self.host.fixture {
            Some(f) => f.st.records_done,
            None => false,
        }
    }

    /// Start the scan dwell.
    pub fn wifi_scan_begin(&mut self)
        requires
            old(self)@.wf(),
        ensures
            final(self)@ == (SocState { wifi: old(self)@.wifi.scan_begun(), ..old(self)@ }),
            final(self)@.wf(),
    {
        reveal(SocState::wf);
        self.wifi.wifi_scan_begin();
        assert(self@ =~= SocState { wifi: old(self)@.wifi.scan_begun(), ..old(self)@ });
    }

    /// The scan dwell has run; told once.
    pub fn wifi_scan_tick_complete(&mut self) -> (r: bool)
        requires
            old(self)@.wf(),
        ensures
            r == old(self)@.wifi.scan_complete(),
            final(self)@ == (SocState {
                wifi: old(self)@.wifi.after_scan_complete(),
                ..old(self)@
            }),
            final(self)@.wf(),
    {
        reveal(SocState::wf);
        let r = self.wifi.scan_tick_complete();
        assert(self@ =~= SocState {
            wifi: old(self)@.wifi.after_scan_complete(),
            ..old(self)@
        });
        r
    }

    fn ready_woken(&mut self, woken: Option<u32>, l: &WifiImageLayout)
        requires
            old(self)@.wf(),
        ensures
            final(self)@ == SocState::woken_ready((woken, old(self)@), *l),
            final(self)@.wf(),
    {
        match woken {
            Some(t) => self.ready_task_on_list(t, l.ready_lists, l.top_prio),
            None => {},
        }
    }

    fn do_scan_leg(
        &mut self,
        st: WifiFixtureState,
        aps: &Vec<ScanFixtureAp>,
        l: &WifiImageLayout,
        pc0: u32,
        pc1: u32,
    ) -> (r: WifiFixtureState)
        requires
            old(self)@.wf(),
        ensures
            (r, final(self)@) == old(self)@.scan_leg(
                st,
                crate::scan_fixture::views(aps@),
                *l,
                pc0,
                pc1,
            ),
            final(self)@.wf(),
    {
        reveal(SocState::scan_leg);
        let mut r = st;
        if st.scan_done {
            return r;
        }
        if !st.scan_armed && (pc0 == l.scan_start || pc1 == l.scan_start) {
            self.wifi_scan_begin();
            r.scan_armed = true;
        }
        if !r.scan_armed {
            return r;
        }
        if self.wifi_scan_tick_complete() {
            if aps.len() > 0 {
                let n: u32 = if aps.len() <= MAX_RECORDS {
                    aps.len() as u32
                } else {
                    MAX_RECORDS as u32
                };
                self.write16(l.count_cell, n);
            }
            let woken = self.wifi_scan_post_event(l.wifi_event_var);
            self.ready_woken(woken, l);
            r.scan_done = true;
        }
        r
    }

    fn fetch_records(&mut self, aps: &Vec<ScanFixtureAp>, l: &WifiImageLayout, pc: u32) -> (done:
        bool)
        requires
            old(self)@.wf(),
        ensures
            (done, final(self)@) == old(self)@.records_fetched(
                crate::scan_fixture::views(aps@),
                *l,
                pc,
            ),
            final(self)@.wf(),
    {
        if pc != l.records_check {
            return false;
        }
        let buf: u32 = self.read32(l.scan_result);
        if buf == 0 {
            return false;
        }
        let n: usize = if aps.len() <= MAX_RECORDS {
            aps.len()
        } else {
            MAX_RECORDS
        };
        let ghost start = self@;
        let mut k: usize = 0;
        while k < n
            invariant
                k <= n <= aps@.len(),
                n <= MAX_RECORDS,
                self@.wf(),
                self@ == start.records_written(
                    buf,
                    crate::scan_fixture::views(aps@),
                    k as nat,
                ),
            decreases n - k,
        {
            let ap = aps[k];
            self.wifi_scan_record_ap(buf, k, &ap);
            k = k + 1;
        }
        self.write16(l.count_cell, n as u32);
        self.write16(l.scan_count, n as u32);
        true
    }

    fn do_records_leg(
        &mut self,
        st: WifiFixtureState,
        aps: &Vec<ScanFixtureAp>,
        l: &WifiImageLayout,
        pc0: u32,
        pc1: u32,
    ) -> (r: WifiFixtureState)
        requires
            old(self)@.wf(),
        ensures
            (r, final(self)@) == old(self)@.records_leg(
                st,
                crate::scan_fixture::views(aps@),
                *l,
                pc0,
                pc1,
            ),
            final(self)@.wf(),
    {
        reveal(SocState::records_leg);
        let mut r = st;
        if !st.scan_done || st.records_done || aps.len() == 0 {
            return r;
        }
        if self.fetch_records(aps, l, pc0) {
            r.records_done = true;
            return r;
        }
        r.records_done = self.fetch_records(aps, l, pc1);
        r
    }

    fn do_connect_leg(
        &mut self,
        st: WifiFixtureState,
        aps: &Vec<ScanFixtureAp>,
        l: &WifiImageLayout,
        pc0: u32,
        pc1: u32,
    ) -> (r: WifiFixtureState)
        requires
            old(self)@.wf(),
        ensures
            (r, final(self)@) == old(self)@.connect_leg(
                st,
                crate::scan_fixture::views(aps@),
                *l,
                pc0,
                pc1,
            ),
            final(self)@.wf(),
    {
        reveal(SocState::connect_leg);
        let mut r = st;
        if st.sta_done {
            return r;
        }
        let arm = !st.sta_armed && (pc0 == l.connect || pc1 == l.connect);
        if arm {
            self.wifi_scan_begin();
            r.sta_armed = true;
        }
        if !r.sta_armed || r.sta_stage != 0 {
            return r;
        }
        let due = arm || self.wifi_scan_tick_complete();
        if due {
            let ap = choose_ap(aps);
            let data: [u8; 48] = build_station48(&ap, true);
            let woken = self.wifi_post_event_with_data(
                l.wifi_event_var,
                STA_CONNECTED_ID,
                data.as_slice(),
            );
            if woken.is_some() {
                r.sta_stage = 1;
                r.sta_done = true;
            }
            self.ready_woken(woken, l);
        }
        r
    }

    fn do_address_leg(
        &mut self,
        st: WifiFixtureState,
        aps: &Vec<ScanFixtureAp>,
        ip: [u8; 4],
        l: &WifiImageLayout,
    ) -> (r: WifiFixtureState)
        requires
            old(self)@.wf(),
        ensures
            (r, final(self)@) == old(self)@.address_leg(
                st,
                crate::scan_fixture::views(aps@),
                ip@,
                *l,
            ),
            final(self)@.wf(),
    {
        reveal(SocState::address_leg);
        let mut r = st;
        if st.sta_stage != 1 || st.sta_ip_done {
            return r;
        }
        let netif: u32 = self.wifi_sta_netif();
        if netif == 0 {
            return r;
        }
        let data: [u8; 20] = build_address20(netif, &ip);
        let woken = self.wifi_post_event_with_data(l.ip_event_var, GOT_IP_ID, data.as_slice());
        self.ready_woken(woken, l);
        let info: [u8; 44] = build_address44(netif, &ip);
        if self.wifi_ard_post(ARD_GOT_IP, &info, l.ready_lists, l.top_prio) {
            let ap = choose_ap(aps);
            self.wifi_stage_sta_data(&ap, ip);
            r.sta_ip_done = true;
        }
        r
    }

    fn do_disconnect_leg(
        &mut self,
        st: WifiFixtureState,
        aps: &Vec<ScanFixtureAp>,
        l: &WifiImageLayout,
    ) -> (r: WifiFixtureState)
        requires
            old(self)@.wf(),
        ensures
            (r, final(self)@) == old(self)@.disconnect_leg(
                st,
                crate::scan_fixture::views(aps@),
                *l,
            ),
            final(self)@.wf(),
    {
        reveal(SocState::disconnect_leg);
        let mut r = st;
        if !st.sta_ip_done || st.disc_done {
            return r;
        }
        let read_both = self.wifi_hook_rssi_done();
        let fired = self.wifi_take_disconnect();
        if read_both && fired {
            r.disc_armed = true;
        }
        if !r.disc_armed {
            return r;
        }
        if !self.wifi_ard_idle() {
            return r;
        }
        let ap = choose_ap(aps);
        let data: [u8; 48] = build_station48(&ap, false);
        let woken = self.wifi_post_event_with_data(
            l.wifi_event_var,
            STA_DISCONNECTED_ID,
            data.as_slice(),
        );
        self.ready_woken(woken, l);
        let info: [u8; 44] = build_station44(&ap, false);
        let sent = self.wifi_ard_post(ARD_DISCONNECTED, &info, l.ready_lists, l.top_prio);
        r.disc_done = woken.is_some() && sent;
        r
    }

    /// One step of the run, with the cores at `pc0` and `pc1`.
    pub fn wifi_fixture_poll(&mut self, pc0: u32, pc1: u32)
        requires
            old(self)@.wf(),
        ensures
            final(self)@ == old(self)@.polled_run(pc0, pc1),
            final(self)@.wf(),
    {
        let (aps, ip, st) = match &self.host.fixture {
            None => {
                return ;
            },
            Some(f) => (copy_aps(&f.aps), f.ip, f.st),
        };
        let l = self.host.layout();
        let st1 = self.do_scan_leg(st, &aps, &l, pc0, pc1);
        let st2 = self.do_records_leg(st1, &aps, &l, pc0, pc1);
        let st3 = self.do_connect_leg(st2, &aps, &l, pc0, pc1);
        let st4 = self.do_address_leg(st3, &aps, ip, &l);
        let st5 = self.do_disconnect_leg(st4, &aps, &l);
        self.store_run(aps, ip, st5);
    }

    fn store_run(&mut self, aps: Vec<ScanFixtureAp>, ip: [u8; 4], st: WifiFixtureState)
        requires
            old(self)@.wf(),
        ensures
            final(self)@ == old(self)@.with_host(
                HostState {
                    fixture: Some(
                        FixtureState {
                            aps: crate::scan_fixture::views(aps@),
                            ip: ip@,
                            st: st,
                        },
                    ),
                    ..old(self)@.host
                },
            ),
            final(self)@.wf(),
    {
        reveal(SocState::wf);
        self.host.fixture = Some(WifiFixture { aps, ip, st });
        assert(self@ =~= old(self)@.with_host(
            HostState {
                fixture: Some(
                    FixtureState { aps: crate::scan_fixture::views(aps@), ip: ip@, st: st },
                ),
                ..old(self)@.host
            },
        ));
    }
}

/// The new value where one is given, else the old one.
pub open spec fn given(new: Option<u32>, old_value: Option<u32>) -> Option<u32> {
    if new is Some {
        new
    } else {
        old_value
    }
}

/// The fallback where a list is empty.
pub open spec fn or_default(aps: Seq<FixtureAp>) -> Seq<FixtureAp> {
    if aps.len() == 0 {
        seq![default_ap()]
    } else {
        aps
    }
}

impl SocState {
    /// A run with the given access points begins; the address handed out is
    /// 192.168.4.2.
    pub open spec fn run_started(self, aps: Seq<FixtureAp>) -> SocState {
        self.with_host(
            HostState {
                fixture: Some(
                    FixtureState {
                        aps: aps,
                        ip: seq![192u8, 168, 4, 2],
                        st: crate::wifi_host::fresh_run(),
                    },
                ),
                ..self.host
            },
        )
    }
}

/// No step of the run is taken back between `a` and `b`.
pub open spec fn forward(a: WifiFixtureState, b: WifiFixtureState) -> bool {
    &&& a.scan_armed ==> b.scan_armed
    &&& a.scan_done ==> b.scan_done
    &&& a.records_done ==> b.records_done
    &&& a.sta_armed ==> b.sta_armed
    &&& a.sta_done ==> b.sta_done
    &&& a.sta_stage <= b.sta_stage
    &&& a.sta_ip_done ==> b.sta_ip_done
    &&& a.disc_armed ==> b.disc_armed
    &&& a.disc_done ==> b.disc_done
}

/// A run only moves forward, and its access points and address stay.
pub proof fn law_run_moves_forward(s: SocState, pc0: u32, pc1: u32)
    requires
        s.host.fixture is Some,
        s.host.fixture->0.st.sta_stage <= 1,
    ensures
        s.polled_run(pc0, pc1).host.fixture matches Some(f) && f.aps == s.host.fixture->0.aps && f.ip
            == s.host.fixture->0.ip && forward(s.host.fixture->0.st, f.st) && f.st.sta_stage <= 1,
{
    let f = s.host.fixture->0;
    let l = s.host.layout();
    let (st1, s1) = s.scan_leg(f.st, f.aps, l, pc0, pc1);
    lemma_scan_leg(s, f.st, f.aps, l, pc0, pc1);
    let (st2, s2) = s1.records_leg(st1, f.aps, l, pc0, pc1);
    lemma_records_leg(s1, st1, f.aps, l, pc0, pc1);
    let (st3, s3) = s2.connect_leg(st2, f.aps, l, pc0, pc1);
    lemma_connect_leg(s2, st2, f.aps, l, pc0, pc1);
    let (st4, s4) = s3.address_leg(st3, f.aps, f.ip, l);
    lemma_address_leg(s3, st3, f.aps, f.ip, l);
    lemma_disconnect_leg(s4, st4, f.aps, l);
}

proof fn lemma_scan_leg(
    s: SocState,
    st: WifiFixtureState,
    aps: Seq<FixtureAp>,
    l: WifiImageLayout,
    pc0: u32,
    pc1: u32,
)
    ensures
        forward(st, s.scan_leg(st, aps, l, pc0, pc1).0),
        s.scan_leg(st, aps, l, pc0, pc1).0.sta_stage == st.sta_stage,
{
    reveal(SocState::scan_leg);
}

proof fn lemma_records_leg(
    s: SocState,
    st: WifiFixtureState,
    aps: Seq<FixtureAp>,
    l: WifiImageLayout,
    pc0: u32,
    pc1: u32,
)
    ensures
        forward(st, s.records_leg(st, aps, l, pc0, pc1).0),
        s.records_leg(st, aps, l, pc0, pc1).0.sta_stage == st.sta_stage,
{
    reveal(SocState::records_leg);
}

proof fn lemma_connect_leg(
    s: SocState,
    st: WifiFixtureState,
    aps: Seq<FixtureAp>,
    l: WifiImageLayout,
    pc0: u32,
    pc1: u32,
)
    requires
        st.sta_stage <= 1,
    ensures
        forward(st, s.connect_leg(st, aps, l, pc0, pc1).0),
        s.connect_leg(st, aps, l, pc0, pc1).0.sta_stage <= 1,
{
    reveal(SocState::connect_leg);
}

proof fn lemma_address_leg(
    s: SocState,
    st: WifiFixtureState,
    aps: Seq<FixtureAp>,
    ip: Seq<u8>,
    l: WifiImageLayout,
)
    ensures
        forward(st, s.address_leg(st, aps, ip, l).0),
        s.address_leg(st, aps, ip, l).0.sta_stage == st.sta_stage,
{
    reveal(SocState::address_leg);
}

proof fn lemma_disconnect_leg(
    s: SocState,
    st: WifiFixtureState,
    aps: Seq<FixtureAp>,
    l: WifiImageLayout,
)
    ensures
        forward(st, s.disconnect_leg(st, aps, l).0),
        s.disconnect_leg(st, aps, l).0.sta_stage == st.sta_stage,
{
    reveal(SocState::disconnect_leg);
}

/// A run that has done all its steps leaves the chip alone.
pub proof fn law_finished_run_is_quiet(s: SocState, pc0: u32, pc1: u32)
    requires
        s.host.fixture matches Some(f) && f.st.scan_done && f.st.records_done && f.st.sta_done
            && f.st.sta_stage == 1 && f.st.sta_ip_done && f.st.disc_done,
    ensures
        s.polled_run(pc0, pc1) == s,
{
    reveal(SocState::scan_leg);
    reveal(SocState::records_leg);
    reveal(SocState::connect_leg);
    reveal(SocState::address_leg);
    reveal(SocState::disconnect_leg);
    assert(s.polled_run(pc0, pc1) =~= s);
}

} // verus!
