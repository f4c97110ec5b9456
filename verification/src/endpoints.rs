//! Where each endpoint lives: its control, length, DMA and mode registers, and
//! its DMA buffer.
//!
//! `EP_COUNT` is the size of the endpoint table: 4 for endpoints 0 to 3, 8 when
//! endpoints 5 to 7 are in use too. Endpoint 4 shares its buffer with endpoint 0
//! and is never handed out.

use crate::regs::{CtrlReg, DmaReg, EpBuf, HwOp, ModeReg, TLenReg, Usbd};
use vstd::prelude::*;

verus! {

/// The endpoint tables that the driver can be built with.
pub open spec fn valid_ep_count(ep_count: usize) -> bool {
    ep_count == 4 || ep_count == 8
}

/// Whether endpoint `index` has control and length registers.
pub open spec fn has_ctrl(ep_count: usize, index: int) -> bool {
    0 <= index <= 4 || index < ep_count && 5 <= index < 8
}

/// Whether endpoint `index` has a DMA buffer of its own.
pub open spec fn has_buffer(ep_count: usize, index: int) -> bool {
    0 <= index < ep_count && index < 8 && index != 4
}

/// The DMA buffer of an endpoint.
pub open spec fn spec_ep_buf(index: int) -> EpBuf {
    if index == 0 {
        EpBuf::Buf0
    } else if index == 1 {
        EpBuf::Buf1
    } else if index == 2 {
        EpBuf::Buf2
    } else if index == 3 {
        EpBuf::Buf3
    } else if index == 5 {
        EpBuf::Buf5
    } else if index == 6 {
        EpBuf::Buf6
    } else {
        EpBuf::Buf7
    }
}

/// The control register of an endpoint.
pub open spec fn spec_ep_ctrl(index: int) -> CtrlReg {
    if index >= 5 {
        CtrlReg::Uep567((index - 5) as usize)
    } else {
        CtrlReg::Uep01234(index as usize)
    }
}

/// The transmit length register of an endpoint.
pub open spec fn spec_ep_t_len(index: int) -> TLenReg {
    if index >= 5 {
        TLenReg::Uep567((index - 5) as usize)
    } else {
        TLenReg::Uep01234(index as usize)
    }
}

/// The DMA address register of an endpoint.
pub open spec fn spec_ep_dma(index: int) -> DmaReg {
    if index >= 5 {
        DmaReg::Uep567((index - 5) as usize)
    } else {
        DmaReg::Uep0123(index as usize)
    }
}

/// The mode register of an endpoint and its place there.
pub open spec fn mode_slot(index: int) -> (ModeReg, usize) {
    if index == 1 {
        (ModeReg::Uep4_1, 1)
    } else if index == 2 {
        (ModeReg::Uep2_3, 0)
    } else if index == 3 {
        (ModeReg::Uep2_3, 1)
    } else {
        (ModeReg::Uep567, (index - 5) as usize)
    }
}

/// The operation that turns on the given directions of an endpoint.
pub open spec fn mode_op(index: int, used_in: bool, used_out: bool) -> HwOp {
    HwOp::ModifyMode {
        reg: mode_slot(index).0,
        n: mode_slot(index).1,
        tx_en: used_in,
        rx_en: used_out,
    }
}

/// The DMA buffer of endpoint `index`.
pub fn ep_buf_ptr<const EP_COUNT: usize>(index: usize) -> (buf: EpBuf)
    requires
        has_buffer(EP_COUNT, index as int),
    ensures
        buf == spec_ep_buf(index as int),
{
    match index {
        0 => EpBuf::Buf0,
        1 => EpBuf::Buf1,
        2 => EpBuf::Buf2,
        3 => EpBuf::Buf3,
        5 => EpBuf::Buf5,
        6 => EpBuf::Buf6,
        _ => EpBuf::Buf7,
    }
}

/// The control register of endpoint `index`. The hardware keeps endpoints 0 to 4
/// and 5 to 7 in two groups.
pub fn ep_ctrl<const EP_COUNT: usize>(index: usize) -> (reg: CtrlReg)
    requires
        has_ctrl(EP_COUNT, index as int),
    ensures
        reg == spec_ep_ctrl(index as int),
{
    if index >= 5 {
        return CtrlReg::Uep567(index - 5);
    }
    CtrlReg::Uep01234(index)
}

/// The transmit length register of endpoint `index`, grouped as the control
/// registers are.
pub fn ep_t_len<const EP_COUNT: usize>(index: usize) -> (reg: TLenReg)
    requires
        has_ctrl(EP_COUNT, index as int),
    ensures
        reg == spec_ep_t_len(index as int),
{
    if index >= 5 {
        return TLenReg::Uep567(index - 5);
    }
    TLenReg::Uep01234(index)
}

/// The DMA address register of endpoint `index`. Endpoint 4 uses that of
/// endpoint 0 and has none of its own.
pub fn ep_dma<const EP_COUNT: usize>(index: usize) -> (reg: DmaReg)
    requires
        has_buffer(EP_COUNT, index as int),
    ensures
        reg == spec_ep_dma(index as int),
{
    if index >= 5 {
        return DmaReg::Uep567(index - 5);
    }
    DmaReg::Uep0123(index)
}

/// Turns on TX_EN and RX_EN of endpoint `index` as asked, in the mode register
/// that holds them.
pub fn enable_ep_mode<const EP_COUNT: usize>(
    usb: &mut Usbd,
    index: usize,
    used_in: bool,
    used_out: bool,
)
    requires
        has_buffer(EP_COUNT, index as int),
        index != 0,
    ensures
        final(usb)@ == old(usb)@.push(mode_op(index as int, used_in, used_out)),
{
    let (reg, n): (ModeReg, usize) = match index {
        1 => (ModeReg::Uep4_1, 1),
        2 => (ModeReg::Uep2_3, 0),
        3 => (ModeReg::Uep2_3, 1),
        5 => (ModeReg::Uep567, 0),
        6 => (ModeReg::Uep567, 1),
        _ => (ModeReg::Uep567, 2),
    };
    usb.push(HwOp::ModifyMode { reg, n, tx_en: used_in, rx_en: used_out });
}

/// The DMA buffer of one endpoint.
#[derive(Clone, Copy, Debug, PartialEq, Eq, Structural)]
pub struct EndpointBuffer {
    pub ptr: EpBuf,
    /// Size in bytes.
    pub len: u16,
}

/// The operations that store `data` at the start of a DMA buffer.
pub open spec fn store_ops(buf: EpBuf, data: Seq<u8>) -> Seq<HwOp> {
    Seq::new(
        data.len(),
        |i: int| HwOp::StoreByte { buf, offset: i as usize, value: data[i] },
    )
}

impl EndpointBuffer {
    /// Copies the first `n` bytes of the buffer to `buf`. `mem` is what the
    /// buffer holds.
    pub fn read(&self, mem: &[u8], buf: &mut [u8], n: usize)
        requires
            mem@.len() == self.len,
            n <= self.len,
            n <= old(buf)@.len(),
        ensures
            final(buf)@ == mem@.take(n as int) + old(buf)@.skip(n as int),
    {
        let mut i: usize = 0;
        while i < n
            invariant
                i <= n,
                n <= mem@.len(),
                n <= old(buf)@.len(),
                buf@ == mem@.take(i as int) + old(buf)@.skip(i as int),
            decreases n - i,
        {
            buf[i] = mem[i];
            i += 1;
        }
    }

    /// Stores `buf` at the start of the buffer.
    pub fn write(&self, usb: &mut Usbd, buf: &[u8])
        requires
            buf@.len() <= self.len,
        ensures
            final(usb)@ == old(usb)@ + store_ops(self.ptr, buf@),
    {
        let mut i: usize = 0;
        while i < buf.len()
            invariant
                i <= buf@.len(),
                usb@ == old(usb)@ + store_ops(self.ptr, buf@.take(i as int)),
            decreases buf@.len() - i,
        {
            usb.push(HwOp::StoreByte { buf: self.ptr, offset: i, value: buf[i] });
            i += 1;
        }
        assert(buf@.take(buf@.len() as int) =~= buf@);
    }
}

} // verus!
