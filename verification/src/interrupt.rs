//! The interrupt handler.
//!
//! It brings the registers up to date, leaves word for the tasks and wakes them.
//! What to answer the host is decided by the tasks.

use crate::endpoints::{ep_ctrl, has_ctrl, spec_ep_ctrl, valid_ep_count};
use crate::regs::{CtrlReg, CtrlUpdate, HwOp, IntFg, IrqFlag, UepCtrl, Usbd, WakerId, RES_NAK};
use vstd::prelude::*;

verus! {

/// `INT_ST` token: OUT.
pub const TOKEN_OUT: u8 = 0b00;

/// `INT_ST` token: IN.
pub const TOKEN_IN: u8 = 0b10;

/// `INT_ST` token: SETUP.
pub const TOKEN_SETUP: u8 = 0b11;

/// What the handler reads from the peripheral.
#[derive(Clone, Copy, Debug, PartialEq, Eq, Structural)]
pub struct InterruptStatus {
    pub int_fg: IntFg,
    /// `INT_ST`: token of the transfer.
    pub token: u8,
    /// `INT_ST`: endpoint of the transfer.
    pub endp: u8,
    /// `RX_LEN`: length of the packet received last.
    pub rx_len: u16,
}

/// How to go on after the operations of an interrupt were performed.
#[derive(Clone, Copy, Debug, PartialEq, Eq, Structural)]
pub enum Served {
    /// There is nothing left to do.
    Completely,
    /// The suspend flag was cleared. Now `MIS_ST` is read, and
    /// [`handle_suspend`] told what it says: a change after that raises the flag
    /// again.
    SuspendChanged,
}

/// A SETUP packet arrived: both directions of endpoint 0 start over at DATA1 and
/// make the host wait, and whoever waits for OUT traffic on endpoint 0 is woken.
pub open spec fn setup_ops() -> Seq<HwOp> {
    seq![
        HwOp::WriteCtrl(
            CtrlReg::Uep01234(0),
            UepCtrl { t_tog: true, r_tog: true, t_res: RES_NAK, r_res: RES_NAK },
        ),
        HwOp::StoreSetup(true),
        HwOp::Wake(WakerId::Out(0)),
    ]
}

/// An IN transfer of endpoint `index` is complete: the toggle advances, the host
/// waits until there is new data, and the sender is woken.
pub open spec fn in_ops(index: int) -> Seq<HwOp> {
    seq![
        HwOp::ModifyCtrl(
            spec_ep_ctrl(index),
            CtrlUpdate { flip_t_tog: true, flip_r_tog: false, t_res: Some(RES_NAK), r_res: None },
        ),
        HwOp::Wake(WakerId::In(index as usize)),
    ]
}

/// An OUT transfer of endpoint `index` is complete: its length is kept, the
/// toggle advances, the host waits until the data was read, and the reader is
/// woken.
pub open spec fn out_ops(index: int, rx_len: u16) -> Seq<HwOp> {
    seq![
        HwOp::StoreOutLen { index: index as usize, len: rx_len },
        HwOp::ModifyCtrl(
            spec_ep_ctrl(index),
            CtrlUpdate { flip_t_tog: false, flip_r_tog: true, t_res: None, r_res: Some(RES_NAK) },
        ),
        HwOp::Wake(WakerId::Out(index as usize)),
    ]
}

/// What a completed transfer asks for. Start-of-frame tokens, endpoints outside the
/// table and endpoint 4, which is not supported, ask for nothing.
pub open spec fn transfer_ops(ep_count: usize, status: InterruptStatus) -> Seq<HwOp> {
    if status.token == TOKEN_SETUP {
        setup_ops()
    } else if status.token == TOKEN_IN && status.endp < ep_count && status.endp != 4 {
        in_ops(status.endp as int)
    } else if status.token == TOKEN_OUT && status.endp < ep_count && status.endp != 4 {
        out_ops(status.endp as int, status.rx_len)
    } else {
        Seq::empty()
    }
}

/// The bus was suspended, or came back: the bus task is told which.
pub open spec fn suspend_ops(suspended: bool) -> Seq<HwOp> {
    seq![
        HwOp::StoreIrq(
            if suspended {
                IrqFlag::Suspend
            } else {
                IrqFlag::Resume
            },
            true,
        ),
        HwOp::Wake(WakerId::Bus),
    ]
}

/// How to go on after an interrupt was served.
pub open spec fn interrupt_next(status: InterruptStatus) -> Served {
    if !status.int_fg.transfer && !status.int_fg.bus_rst && status.int_fg.suspend {
        Served::SuspendChanged
    } else {
        Served::Completely
    }
}

/// What an interrupt asks for. One cause is served at a time: a transfer before a
/// bus reset before a suspend; the flag of that cause alone is cleared. Flags of
/// other causes are cleared as they were read.
pub open spec fn interrupt_ops(ep_count: usize, status: InterruptStatus) -> Seq<HwOp> {
    let none = IntFg { transfer: false, bus_rst: false, suspend: false, rest: 0 };
    if status.int_fg.transfer {
        transfer_ops(ep_count, status).push(
            HwOp::WriteIntFg(IntFg { transfer: true, ..none }),
        )
    } else if status.int_fg.bus_rst {
        seq![
            HwOp::WriteIntFg(IntFg { bus_rst: true, ..none }),
            HwOp::StoreIrq(IrqFlag::Reset, true),
            HwOp::Wake(WakerId::Bus),
        ]
    } else if status.int_fg.suspend {
        seq![HwOp::WriteIntFg(IntFg { suspend: true, ..none })]
    } else {
        seq![HwOp::WriteIntFg(status.int_fg)]
    }
}

/// Serves the interrupts of a peripheral with a table of `EP_COUNT` endpoints.
pub struct InterruptHandler<const EP_COUNT: usize>;

impl<const EP_COUNT: usize> InterruptHandler<EP_COUNT> {
    /// Serves one interrupt.
    pub fn on_interrupt(usb: &mut Usbd, status: InterruptStatus) -> (served: Served)
        requires
            valid_ep_count(EP_COUNT),
        ensures
            served == interrupt_next(status),
            final(usb)@ == old(usb)@ + interrupt_ops(EP_COUNT, status),
    {
        let none = IntFg { transfer: false, bus_rst: false, suspend: false, rest: 0 };
        if status.int_fg.transfer {
            let index: usize = status.endp as usize;
            match status.token {
                TOKEN_SETUP => handle_setup(usb),
                TOKEN_IN if index < EP_COUNT && index != 4 => handle_in::<EP_COUNT>(usb, index),
                TOKEN_OUT if index < EP_COUNT && index != 4 => handle_out::<EP_COUNT>(
                    usb,
                    index,
                    status.rx_len,
                ),
                _ => {},
            }
            usb.push(HwOp::WriteIntFg(IntFg { transfer: true, ..none }));
        } else if status.int_fg.bus_rst {
            usb.push(HwOp::WriteIntFg(IntFg { bus_rst: true, ..none }));
            usb.push(HwOp::StoreIrq(IrqFlag::Reset, true));
            usb.push(HwOp::Wake(WakerId::Bus));
        } else if status.int_fg.suspend {
            usb.push(HwOp::WriteIntFg(IntFg { suspend: true, ..none }));
            return Served::SuspendChanged;
        } else {
            usb.push(HwOp::WriteIntFg(status.int_fg));
        }
        Served::Completely
    }
}

/// Tells the bus task that the bus was suspended or came back; `suspended` is what
/// `MIS_ST` says after the suspend flag was cleared.
pub fn handle_suspend(usb: &mut Usbd, suspended: bool)
    ensures
        final(usb)@ == old(usb)@ + suspend_ops(suspended),
{
    if suspended {
        usb.push(HwOp::StoreIrq(IrqFlag::Suspend, true));
    } else {
        usb.push(HwOp::StoreIrq(IrqFlag::Resume, true));
    }
    usb.push(HwOp::Wake(WakerId::Bus));
}

/// Serves the arrival of a SETUP packet.
///
/// What follows a SETUP packet starts at DATA1. The answer is not known yet, so
/// both directions make the host wait.
pub fn handle_setup(usb: &mut Usbd)
    ensures
        final(usb)@ == old(usb)@ + setup_ops(),
{
    usb.push(
        HwOp::WriteCtrl(
            CtrlReg::Uep01234(0),
            UepCtrl { t_tog: true, r_tog: true, t_res: RES_NAK, r_res: RES_NAK },
        ),
    );
    usb.push(HwOp::StoreSetup(true));
    usb.push(HwOp::Wake(WakerId::Out(0)));
}

/// Serves the completion of an IN transfer.
pub fn handle_in<const EP_COUNT: usize>(usb: &mut Usbd, index: usize)
    requires
        has_ctrl(EP_COUNT, index as int),
        index < EP_COUNT,
    ensures
        final(usb)@ == old(usb)@ + in_ops(index as int),
{
    usb.push(
        HwOp::ModifyCtrl(
            ep_ctrl::<EP_COUNT>(index),
            CtrlUpdate { flip_t_tog: true, flip_r_tog: false, t_res: Some(RES_NAK), r_res: None },
        ),
    );
    usb.push(HwOp::Wake(WakerId::In(index)));
}

/// Serves the completion of an OUT transfer.
///
/// `RX_LEN` is shared by all endpoints and overwritten by the next transfer, so
/// its value is kept per endpoint at once.
pub fn handle_out<const EP_COUNT: usize>(usb: &mut Usbd, index: usize, rx_len: u16)
    requires
        has_ctrl(EP_COUNT, index as int),
        index < EP_COUNT,
    ensures
        final(usb)@ == old(usb)@ + out_ops(index as int, rx_len),
{
    usb.push(HwOp::StoreOutLen { index, len: rx_len });
    usb.push(
        HwOp::ModifyCtrl(
            ep_ctrl::<EP_COUNT>(index),
            CtrlUpdate { flip_t_tog: false, flip_r_tog: true, t_res: None, r_res: Some(RES_NAK) },
        ),
    );
    usb.push(HwOp::Wake(WakerId::Out(index)));
}

} // verus!
