//! Enumeration of the simulated USB device, from both sides of the controller: what a
//! control transfer brings to the host, byte for byte.

use crate::usb_otg::{OtgState, SimState, HCCHAR_IN, HCCHAR_OFF, HCTSIZ_OFF, HC_COUNT};
use vstd::prelude::*;

verus! {

/// A string descriptor: its length, its type and the text in UTF-16LE.
pub open spec fn text_descriptor(text: Seq<u8>) -> Seq<u8> {
    Seq::new(
        2 + 2 * text.len(),
        |i: int|
            if i == 0 {
                (2 + 2 * text.len()) as u8
            } else if i == 1 {
                3
            } else if i % 2 == 0 {
                text[i / 2 - 1]
            } else {
                0
            },
    )
}

/// The device descriptor: USB 2.0, 64-byte packets, vendor 0x303A, product 0x1001,
/// strings 1 to 3, one configuration.
pub open spec fn device_descriptor() -> Seq<u8> {
    seq![
        18u8,
        1,
        0x00,
        0x02,
        0,
        0,
        0,
        64,
        0x3A,
        0x30,
        0x01,
        0x10,
        0x00,
        0x01,
        1,
        2,
        3,
        1,
    ]
}

/// The configuration descriptor: one vendor interface with a bulk IN and a bulk OUT
/// endpoint.
pub open spec fn configuration_descriptor() -> Seq<u8> {
    seq![9u8, 2, 32, 0, 1, 1, 0, 0x80, 50] + seq![9u8, 4, 0, 0, 2, 0xFF, 0, 0, 0] + seq![
        7u8,
        5,
        0x81,
        2,
        64,
        0,
        0,
    ] + seq![7u8, 5, 0x02, 2, 64, 0, 0]
}

/// "Espressif"
pub open spec fn manufacturer() -> Seq<u8> {
    seq![0x45u8, 0x73, 0x70, 0x72, 0x65, 0x73, 0x73, 0x69, 0x66]
}

/// "ESP32-S3-EMU"
pub open spec fn product() -> Seq<u8> {
    seq![0x45u8, 0x53, 0x50, 0x33, 0x32, 0x2D, 0x53, 0x33, 0x2D, 0x45, 0x4D, 0x55]
}

/// "1234"
pub open spec fn serial_number() -> Seq<u8> {
    seq![0x31u8, 0x32, 0x33, 0x34]
}

/// A SETUP packet asks the device for a descriptor.
pub open spec fn asks_descriptor(pkt: Seq<u8>, kind: u8, index: u8, len: int) -> bool {
    &&& pkt.len() == 8
    &&& pkt[0] == 0x80 && pkt[1] == 6
    &&& pkt[3] == kind && pkt[2] == index
    &&& pkt[6] + 256 * pkt[7] == len
}

/// What the device holds ready after a GET_DESCRIPTOR request: the requested descriptor,
/// cut to the requested length. Types 1 and 2 are the device and its configuration;
/// type 3 are the strings: the language (English), the manufacturer, the product and
/// the serial number, by their index.
pub proof fn law_descriptor_contents(d: SimState, pkt: Seq<u8>, kind: u8, index: u8, len: int)
    requires
        asks_descriptor(pkt, kind, index, len),
    ensures
        ({
            let ready = d.after_setup(pkt).in_data;
            &&& kind == 1 && len >= 18 ==> ready == device_descriptor()
            &&& kind == 2 && len >= 32 ==> ready == configuration_descriptor()
            &&& kind == 2 && len == 9 ==> ready == configuration_descriptor().take(9)
            &&& kind == 3 && index == 0 && len >= 4 ==> ready == seq![4u8, 3, 0x09, 0x04]
            &&& kind == 3 && index == 1 && len >= 20 ==> ready == text_descriptor(manufacturer())
            &&& kind == 3 && index == 2 && len >= 26 ==> ready == text_descriptor(product())
            &&& kind == 3 && index == 3 && len >= 10 ==> ready == text_descriptor(serial_number())
            &&& kind == 3 && index > 3 ==> ready.len() == 0
            &&& kind == 0 || kind > 3 ==> ready.len() == 0
            &&& ready.len() <= len
        }),
        d.after_setup(pkt) == (SimState { in_data: d.after_setup(pkt).in_data, ..d }),
{
    let ready = d.after_setup(pkt).in_data;
    if kind == 1 && len >= 18 {
        assert(ready =~= device_descriptor());
    }
    if kind == 2 && len >= 32 {
        assert(ready =~= configuration_descriptor());
    }
    if kind == 2 && len == 9 {
        assert(ready =~= configuration_descriptor().take(9));
    }
    if kind == 3 && index == 0 && len >= 4 {
        assert(ready =~= seq![4u8, 3, 0x09, 0x04]);
    }
    if kind == 3 && index == 1 && len >= 20 {
        assert(ready =~= text_descriptor(manufacturer()));
    }
    if kind == 3 && index == 2 && len >= 26 {
        assert(ready =~= text_descriptor(product()));
    }
    if kind == 3 && index == 3 && len >= 10 {
        assert(ready =~= text_descriptor(serial_number()));
    }
}

/// Host channel `ch` is set up for endpoint 0 of the device, which is there.
pub open spec fn reaches_device(s: OtgState, ch: int) -> bool {
    let hcchar = s.reg(crate::usb_otg::hc_off(ch, HCCHAR_OFF));
    &&& s.wf()
    &&& 0 <= ch < HC_COUNT
    &&& s.dev.present
    &&& (hcchar >> 22) & 0x7F == s.dev.addr
    &&& (hcchar >> 18) & 3 == 0
}

/// Packet identifier of the transfer of host channel `ch`; 3 is SETUP.
pub open spec fn pid_of(s: OtgState, ch: int) -> u32 {
    (s.reg(crate::usb_otg::hc_off(ch, HCTSIZ_OFF)) >> 29) & 3
}

/// A SETUP transfer hands the first eight staged bytes to the device as its request.
pub proof fn law_setup_transfer(s: OtgState, ch: int)
    requires
        reaches_device(s, ch),
        pid_of(s, ch) == 3,
        s.host_txfifo.len() >= 8,
    ensures
        s.channel_run(ch).dev == s.dev.after_setup(s.host_txfifo.take(8)),
        s.channel_run(ch).host_txfifo == s.host_txfifo.skip(8),
        s.channel_run(ch).rx_data == s.rx_data,
{
    let pkt = Seq::new(8, |i: int| crate::usb_otg::byte_or_zero(s.host_txfifo, i));
    assert(pkt =~= s.host_txfifo.take(8));
    assert(crate::usb_otg::rest(s.host_txfifo, 8) =~= s.host_txfifo.skip(8));
}

/// An IN transfer brings the bytes that the device holds ready, as many as the transfer
/// size allows, to the receive FIFO in order, announced by their number; the rest stays
/// ready for the next transfer.
pub proof fn law_in_transfer(s: OtgState, ch: int, size: int)
    requires
        reaches_device(s, ch),
        pid_of(s, ch) != 3,
        s.reg(crate::usb_otg::hc_off(ch, HCCHAR_OFF)) & HCCHAR_IN != 0,
        size == s.reg(crate::usb_otg::hc_off(ch, HCTSIZ_OFF)) & 0x7_FFFF,
    ensures
        ({
            let t = s.channel_run(ch);
            let n = if size < s.dev.in_data.len() {
                size
            } else {
                s.dev.in_data.len() as int
            };
            &&& t.rx_data == s.rx_data + s.dev.in_data.take(n)
            &&& t.dev.in_data == s.dev.in_data.skip(n)
            &&& n < 0x7FF ==> t.rx_meta == Some((ch as u8, n as u16, pid_of(s, ch) as u8))
            &&& t.host_txfifo == s.host_txfifo
        }),
{
    let n = if size < s.dev.in_data.len() {
        size
    } else {
        s.dev.in_data.len() as int
    };
    assert(crate::usb_otg::first(s.dev.in_data, size) =~= s.dev.in_data.take(n));
    assert(crate::usb_otg::rest(s.dev.in_data, size) =~= s.dev.in_data.skip(n));
}

/// A descriptor read from end to end: the SETUP transfer of a GET_DESCRIPTOR request on
/// one state, an IN transfer large enough on a later one with the same device and an
/// empty receive FIFO. The FIFO then holds the descriptor and nothing else.
pub proof fn law_host_reads_descriptor(
    s: OtgState,
    t: OtgState,
    ch: int,
    kind: u8,
    index: u8,
    len: int,
    size: int,
)
    requires
        reaches_device(s, ch),
        pid_of(s, ch) == 3,
        s.host_txfifo.len() >= 8,
        asks_descriptor(s.host_txfifo.take(8), kind, index, len),
        t.dev == s.channel_run(ch).dev,
        reaches_device(t, ch),
        pid_of(t, ch) != 3,
        t.reg(crate::usb_otg::hc_off(ch, HCCHAR_OFF)) & HCCHAR_IN != 0,
        size == t.reg(crate::usb_otg::hc_off(ch, HCTSIZ_OFF)) & 0x7_FFFF,
        t.rx_data.len() == 0,
        len >= 64,
        size >= 64,
    ensures
        ({
            let got = t.channel_run(ch).rx_data;
            &&& kind == 1 ==> got == device_descriptor()
            &&& kind == 2 ==> got == configuration_descriptor()
            &&& kind == 3 && index == 0 ==> got == seq![4u8, 3, 0x09, 0x04]
            &&& kind == 3 && index == 1 ==> got == text_descriptor(manufacturer())
            &&& kind == 3 && index == 2 ==> got == text_descriptor(product())
            &&& kind == 3 && index == 3 ==> got == text_descriptor(serial_number())
        }),
{
    law_setup_transfer(s, ch);
    law_in_transfer(t, ch, size);
    law_descriptor_contents(s.dev, s.host_txfifo.take(8), kind, index, len);
    let ready = t.dev.in_data;
    if 1 <= kind <= 3 && index <= 3 {
        assert(ready.len() <= 64 ==> t.rx_data + ready.take(ready.len() as int) =~= ready);
    } else if kind == 1 || kind == 2 {
        assert(ready.len() <= 64 ==> t.rx_data + ready.take(ready.len() as int) =~= ready);
    }
}

/// SET_ADDRESS and SET_CONFIGURATION: the address is taken over by the status stage, an
/// OUT transfer or an IN transfer of no bytes, and the configuration at once.
pub proof fn law_host_configures_device(s: OtgState, t: OtgState, ch: int)
    requires
        reaches_device(s, ch),
        pid_of(s, ch) == 3,
        s.host_txfifo.len() >= 8,
        s.host_txfifo[0] == 0,
        t.dev == s.channel_run(ch).dev,
        reaches_device(t, ch),
        pid_of(t, ch) != 3,
        t.reg(crate::usb_otg::hc_off(ch, HCTSIZ_OFF)) & 0x7_FFFF == 0,
    ensures
        s.host_txfifo[1] == 5 && s.host_txfifo[2] < 0x80 ==> {
            &&& s.channel_run(ch).dev.addr == s.dev.addr
            &&& t.channel_run(ch).dev.addr == s.host_txfifo[2]
        },
        s.host_txfifo[1] == 9 ==> s.channel_run(ch).dev.configured == s.host_txfifo[2],
{
    law_setup_transfer(s, ch);
    let a = s.host_txfifo[2];
    crate::bits::lemma_low_seven(a);
}

/// The loopback side: a SETUP packet written to the FIFO word by word in device mode
/// leaves the requested descriptor in the receive FIFO.
pub proof fn law_loopback_reads_descriptor(
    s: OtgState,
    w0: u32,
    w1: u32,
    pkt: Seq<u8>,
    kind: u8,
    index: u8,
    len: int,
)
    requires
        s.wf(),
        !s.host_mode(),
        !s.dev_enum_session,
        !s.dev_setup_done,
        s.dev_setup.len() == 0,
        pkt == crate::usb_otg::word_bytes(w0) + crate::usb_otg::word_bytes(w1),
        asks_descriptor(pkt, kind, index, len),
        len >= 64,
    ensures
        ({
            let got = s.written(crate::usb_otg::DFIFO0, w0).written(
                crate::usb_otg::DFIFO0,
                w1,
            ).rx_data;
            &&& kind == 1 ==> got == device_descriptor()
            &&& kind == 2 ==> got == configuration_descriptor()
            &&& kind == 3 && index == 0 ==> got == seq![4u8, 3, 0x09, 0x04]
            &&& kind == 3 && index == 1 ==> got == text_descriptor(manufacturer())
            &&& kind == 3 && index == 2 ==> got == text_descriptor(product())
            &&& kind == 3 && index == 3 ==> got == text_descriptor(serial_number())
        }),
{
    law_descriptor_contents(s.dev, pkt, kind, index, len);
    let s1 = s.written(crate::usb_otg::DFIFO0, w0);
    assert(s1.dev_setup =~= crate::usb_otg::word_bytes(w0));
    assert(s1.dev_setup + crate::usb_otg::word_bytes(w1) =~= pkt);
}

} // verus!
