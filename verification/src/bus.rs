//! The bus as a whole: its events, and the state of its endpoints.

use crate::endpoints::{ep_ctrl, has_ctrl, spec_ep_ctrl, valid_ep_count};
use crate::regs::{
    CtrlReg, CtrlUpdate, HwOp, IrqFlag, UepCtrl, Usbd, WakerId, RES_ACK, RES_NAK, RES_STALL,
};
use crate::usb::{Direction, EndpointAddress, Event, Poll, Unsupported};
use vstd::prelude::*;

verus! {

/// What the interrupt handler has left for the bus task.
#[derive(Clone, Copy, Debug, PartialEq, Eq, Structural)]
pub struct IrqFlags {
    pub reset: bool,
    pub suspend: bool,
    pub resume: bool,
}

/// The event that a look at the bus finds. The first look ever reports power; then
/// a reset comes before a resume before a suspend.
pub open spec fn bus_event(inited: bool, irq: IrqFlags) -> Poll<Event> {
    if !inited {
        Poll::Ready(Event::PowerDetected)
    } else if irq.reset {
        Poll::Ready(Event::Reset)
    } else if irq.resume {
        Poll::Ready(Event::Resume)
    } else if irq.suspend {
        Poll::Ready(Event::Suspend)
    } else {
        Poll::Pending
    }
}

/// Puts endpoints 1 to `n - 1`, without endpoint 4, back to their initial state.
pub open spec fn endpoints_reset_ops(n: int) -> Seq<HwOp>
    decreases n,
{
    if n <= 1 {
        Seq::empty()
    } else if n - 1 == 4 {
        endpoints_reset_ops(n - 1)
    } else {
        endpoints_reset_ops(n - 1).push(
            HwOp::WriteCtrl(
                spec_ep_ctrl(n - 1),
                UepCtrl { t_tog: false, r_tog: false, t_res: RES_NAK, r_res: RES_NAK },
            ),
        )
    }
}

/// Wakes the senders of endpoints 0 to `n - 1`.
pub open spec fn wake_in_ops(n: int) -> Seq<HwOp> {
    Seq::new(n as nat, |i: int| HwOp::Wake(WakerId::In(i as usize)))
}

/// Wakes the readers of endpoints 0 to `n - 1`.
pub open spec fn wake_out_ops(n: int) -> Seq<HwOp> {
    Seq::new(n as nat, |i: int| HwOp::Wake(WakerId::Out(i as usize)))
}

/// Notes on endpoints 0 to `n - 1` that their transfers were cut.
pub open spec fn cut_ops(n: int) -> Seq<HwOp>
    decreases n,
{
    if n <= 0 {
        Seq::empty()
    } else {
        cut_ops(n - 1) + seq![
            HwOp::StoreCut { index: (n - 1) as usize, dir: Direction::In, value: true },
            HwOp::StoreCut { index: (n - 1) as usize, dir: Direction::Out, value: true },
        ]
    }
}

/// What a bus reset asks for: the transfers under way are cut, the device answers to
/// address 0 again, the control endpoint is ready to receive, the other endpoints
/// make the host wait, and the tasks are woken to notice that their transfers
/// failed. The notes come before the registers: whoever sees a register at rest
/// because of the reset finds the note.
pub open spec fn reset_ops(ep_count: int) -> Seq<HwOp> {
    seq![HwOp::StoreIrq(IrqFlag::Reset, false)] + cut_ops(ep_count) + seq![
        HwOp::WriteDevAd(0),
        HwOp::WriteCtrl(
            CtrlReg::Uep01234(0),
            UepCtrl { t_tog: false, r_tog: false, t_res: RES_NAK, r_res: RES_ACK },
        ),
    ] + endpoints_reset_ops(ep_count) + wake_in_ops(ep_count) + wake_out_ops(ep_count)
}

/// What reporting an event asks for.
pub open spec fn event_ops(ep_count: int, event: Poll<Event>) -> Seq<HwOp> {
    match event {
        Poll::Ready(Event::Reset) => reset_ops(ep_count),
        Poll::Ready(Event::Resume) => seq![HwOp::StoreIrq(IrqFlag::Resume, false)],
        Poll::Ready(Event::Suspend) => seq![HwOp::StoreIrq(IrqFlag::Suspend, false)],
        _ => Seq::empty(),
    }
}

/// Gives one direction of an endpoint a response code, puts it to use again after
/// a reset, and has its task look again.
pub open spec fn respond_ops(addr: EndpointAddress, t_res: u8, r_res: u8) -> Seq<HwOp> {
    let index = addr.spec_index();
    match addr.spec_direction() {
        Direction::In => seq![
            HwOp::ModifyCtrl(spec_ep_ctrl(index), CtrlUpdate::spec_set_t_res(t_res)),
            HwOp::StoreCut { index: index as usize, dir: Direction::In, value: false },
            HwOp::Wake(WakerId::In(index as usize)),
        ],
        Direction::Out => seq![
            HwOp::ModifyCtrl(spec_ep_ctrl(index), CtrlUpdate::spec_set_r_res(r_res)),
            HwOp::StoreCut { index: index as usize, dir: Direction::Out, value: false },
            HwOp::Wake(WakerId::Out(index as usize)),
        ],
    }
}

/// What enabling or disabling an endpoint asks for. The hardware has no disabled
/// state; STALL stands for it.
pub open spec fn set_enabled_ops(addr: EndpointAddress, enabled: bool) -> Seq<HwOp> {
    if enabled {
        respond_ops(addr, RES_NAK, RES_ACK)
    } else {
        respond_ops(addr, RES_STALL, RES_STALL)
    }
}

/// What setting or clearing the stall of an endpoint asks for.
pub open spec fn set_stalled_ops(addr: EndpointAddress, stalled: bool) -> Seq<HwOp> {
    set_enabled_ops(addr, !stalled)
}

/// Whether the addressed direction stalls.
pub open spec fn is_stalled(addr: EndpointAddress, ctrl: UepCtrl) -> bool {
    match addr.spec_direction() {
        Direction::In => ctrl.t_res == RES_STALL,
        Direction::Out => ctrl.r_res == RES_STALL,
    }
}

/// The running bus. Its view is whether power was reported.
pub struct Bus<const EP_COUNT: usize> {
    inited: bool,
}

impl<const EP_COUNT: usize> Bus<EP_COUNT> {
    pub closed spec fn view(&self) -> bool {
        self.inited
    }

    pub(crate) fn new() -> (bus: Self)
        ensures
            bus@ == false,
    {
        Bus { inited: false }
    }

    /// Where to leave a waker while waiting for an event.
    pub fn waker(&self) -> (id: WakerId)
        ensures
            id == WakerId::Bus,
    {
        WakerId::Bus
    }

    /// One look while waiting for an event.
    pub fn poll(&mut self, usb: &mut Usbd, irq: IrqFlags) -> (event: Poll<Event>)
        requires
            valid_ep_count(EP_COUNT),
        ensures
            event == bus_event(old(self)@, irq),
            final(self)@ == true,
            final(usb)@ == old(usb)@ + event_ops(EP_COUNT as int, event),
    {
        if !self.inited {
            self.inited = true;
            return Poll::Ready(Event::PowerDetected);
        }
        if irq.reset {
            usb.push(HwOp::StoreIrq(IrqFlag::Reset, false));
            let ghost head = usb@;
            let mut index: usize = 0;
            while index < EP_COUNT
                invariant
                    index <= EP_COUNT,
                    usb@ == head + cut_ops(index as int),
                decreases EP_COUNT - index,
            {
                usb.push(HwOp::StoreCut { index, dir: Direction::In, value: true });
                usb.push(HwOp::StoreCut { index, dir: Direction::Out, value: true });
                index += 1;
            }
            usb.push(HwOp::WriteDevAd(0));
            usb.push(
                HwOp::WriteCtrl(
                    CtrlReg::Uep01234(0),
                    UepCtrl { t_tog: false, r_tog: false, t_res: RES_NAK, r_res: RES_ACK },
                ),
            );
            let ghost head = usb@;
            let mut index: usize = 1;
            while index < EP_COUNT
                invariant
                    valid_ep_count(EP_COUNT),
                    1 <= index <= EP_COUNT,
                    usb@ == head + endpoints_reset_ops(index as int),
                decreases EP_COUNT - index,
            {
                if index != 4 {
                    usb.push(
                        HwOp::WriteCtrl(
                            ep_ctrl::<EP_COUNT>(index),
                            UepCtrl { t_tog: false, r_tog: false, t_res: RES_NAK, r_res: RES_NAK },
                        ),
                    );
                }
                index += 1;
            }
            let ghost head = usb@;
            let mut i: usize = 0;
            while i < EP_COUNT
                invariant
                    i <= EP_COUNT,
                    usb@ == head + wake_in_ops(i as int),
                decreases EP_COUNT - i,
            {
                usb.push(HwOp::Wake(WakerId::In(i)));
                i += 1;
            }
            let ghost head = usb@;
            let mut i: usize = 0;
            while i < EP_COUNT
                invariant
                    i <= EP_COUNT,
                    usb@ == head + wake_out_ops(i as int),
                decreases EP_COUNT - i,
            {
                usb.push(HwOp::Wake(WakerId::Out(i)));
                i += 1;
            }
            return Poll::Ready(Event::Reset);
        }
        if irq.resume {
            usb.push(HwOp::StoreIrq(IrqFlag::Resume, false));
            return Poll::Ready(Event::Resume);
        }
        if irq.suspend {
            usb.push(HwOp::StoreIrq(IrqFlag::Suspend, false));
            return Poll::Ready(Event::Suspend);
        }
        Poll::Pending
    }

    /// Enables or disables an endpoint.
    pub fn endpoint_set_enabled(&mut self, usb: &mut Usbd, ep_addr: EndpointAddress, enabled: bool)
        requires
            has_ctrl(EP_COUNT, ep_addr.spec_index()),
            ep_addr.spec_index() < EP_COUNT,
        ensures
            final(self)@ == old(self)@,
            final(usb)@ == old(usb)@ + set_enabled_ops(ep_addr, enabled),
    {
        let index: usize = ep_addr.index();
        let reg = ep_ctrl::<EP_COUNT>(index);
        match ep_addr.direction() {
            Direction::In => {
                let res: u8 = if enabled {
                    RES_NAK
                } else {
                    RES_STALL
                };
                usb.push(HwOp::ModifyCtrl(reg, CtrlUpdate::set_t_res(res)));
                usb.push(HwOp::StoreCut { index, dir: Direction::In, value: false });
                usb.push(HwOp::Wake(WakerId::In(index)));
            },
            Direction::Out => {
                let res: u8 = if enabled {
                    RES_ACK
                } else {
                    RES_STALL
                };
                usb.push(HwOp::ModifyCtrl(reg, CtrlUpdate::set_r_res(res)));
                usb.push(HwOp::StoreCut { index, dir: Direction::Out, value: false });
                usb.push(HwOp::Wake(WakerId::Out(index)));
            },
        }
    }

    /// Sets or clears the stall of an endpoint.
    pub fn endpoint_set_stalled(&mut self, usb: &mut Usbd, ep_addr: EndpointAddress, stalled: bool)
        requires
            has_ctrl(EP_COUNT, ep_addr.spec_index()),
            ep_addr.spec_index() < EP_COUNT,
        ensures
            final(self)@ == old(self)@,
            final(usb)@ == old(usb)@ + set_stalled_ops(ep_addr, stalled),
    {
        let index: usize = ep_addr.index();
        let reg = ep_ctrl::<EP_COUNT>(index);
        match ep_addr.direction() {
            Direction::In => {
                let res: u8 = if stalled {
                    RES_STALL
                } else {
                    RES_NAK
                };
                usb.push(HwOp::ModifyCtrl(reg, CtrlUpdate::set_t_res(res)));
                usb.push(HwOp::StoreCut { index, dir: Direction::In, value: false });
                usb.push(HwOp::Wake(WakerId::In(index)));
            },
            Direction::Out => {
                let res: u8 = if stalled {
                    RES_STALL
                } else {
                    RES_ACK
                };
                usb.push(HwOp::ModifyCtrl(reg, CtrlUpdate::set_r_res(res)));
                usb.push(HwOp::StoreCut { index, dir: Direction::Out, value: false });
                usb.push(HwOp::Wake(WakerId::Out(index)));
            },
        }
    }

    /// The control register that tells whether an endpoint stalls.
    pub fn ctrl_reg(&self, ep_addr: EndpointAddress) -> (reg: CtrlReg)
        requires
            has_ctrl(EP_COUNT, ep_addr.spec_index()),
        ensures
            reg == spec_ep_ctrl(ep_addr.spec_index()),
    {
        ep_ctrl::<EP_COUNT>(ep_addr.index())
    }

    /// Whether an endpoint stalls, by its control register.
    pub fn endpoint_is_stalled(&self, ep_addr: EndpointAddress, ctrl: UepCtrl) -> (r: bool)
        ensures
            r == is_stalled(ep_addr, ctrl),
    {
        match ep_addr.direction() {
            Direction::In => ctrl.t_res == RES_STALL,
            Direction::Out => ctrl.r_res == RES_STALL,
        }
    }

    /// Waking the host is not supported.
    pub fn remote_wakeup(&self) -> (r: Result<(), Unsupported>)
        ensures
            r == Err::<(), Unsupported>(Unsupported),
    {
        Err(Unsupported)
    }
}

} // verus!
