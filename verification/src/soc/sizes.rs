//! Sizes of the tables inside a chip.

use super::Soc;
use vstd::prelude::*;

verus! {

/// The blocks of every chip have their sizes.
pub broadcast proof fn lemma_sized(s: Soc)
    ensures
        #[trigger] s@.sized(),
{
    crate::uart::lemma_sizes(s.uart0);
    crate::uart::lemma_sizes(s.uart1);
    crate::uart::lemma_sizes(s.uart2);
    crate::timg::lemma_sizes(s.timg0);
    crate::timg::lemma_sizes(s.timg1);
    crate::systimer::lemma_sizes(s.systimer);
    crate::usb_serial_jtag::lemma_sizes(s.usb);
    crate::usb_otg::lemma_sizes(s.otg);
    crate::twai::lemma_sizes(s.twai);
    crate::touch::lemma_sizes(s.touch);
}

} // verus!
