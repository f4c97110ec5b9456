//! The interrupt handler.

use crate::bus::IrqFlags;
use crate::endpoints::spec_ep_ctrl;
use crate::interrupt::{
    in_ops, interrupt_next, interrupt_ops, out_ops, setup_ops, suspend_ops, transfer_ops,
    InterruptStatus, Served, TOKEN_IN, TOKEN_OUT, TOKEN_SETUP,
};
use crate::model::{
    clear_flags, ctrl_of, lemma_run_1, lemma_run_2, lemma_run_3, lemma_run_ends, lemma_run_push,
    lemma_run_take, run, store_irq, Hardware,
};
use crate::regs::{CtrlReg, CtrlUpdate, HwOp, IntFg, IrqFlag, UepCtrl, WakerId, RES_NAK};
use vstd::prelude::*;

verus! {

/// A SETUP packet puts both directions of endpoint 0 to DATA1 and NAK, whatever
/// they were (a stall ends with it), is noted, and wakes whoever waits for it.
pub proof fn law_setup(hw: Hardware)
    ensures
        run(hw, setup_ops()) == (Hardware {
            ctrl: hw.ctrl.insert(
                spec_ep_ctrl(0),
                UepCtrl { t_tog: true, r_tog: true, t_res: RES_NAK, r_res: RES_NAK },
            ),
            setup: true,
            woken: hw.woken.insert(WakerId::Out(0)),
            ..hw
        }),
{
    lemma_run_3(
        hw,
        HwOp::WriteCtrl(
            CtrlReg::Uep01234(0),
            UepCtrl { t_tog: true, r_tog: true, t_res: RES_NAK, r_res: RES_NAK },
        ),
        HwOp::StoreSetup(true),
        HwOp::Wake(WakerId::Out(0)),
    );
}

/// A completed IN transfer advances the endpoint's IN toggle, makes the host wait
/// for the next packet, wakes the sender, and changes nothing else.
pub proof fn law_in_complete(hw: Hardware, index: int)
    ensures
        run(hw, in_ops(index)) == (Hardware {
            ctrl: hw.ctrl.insert(
                spec_ep_ctrl(index),
                UepCtrl {
                    t_tog: !hw.ctrl[spec_ep_ctrl(index)].t_tog,
                    t_res: RES_NAK,
                    ..hw.ctrl[spec_ep_ctrl(index)]
                },
            ),
            woken: hw.woken.insert(WakerId::In(index as usize)),
            ..hw
        }),
{
    lemma_run_2(
        hw,
        HwOp::ModifyCtrl(
            spec_ep_ctrl(index),
            CtrlUpdate { flip_t_tog: true, flip_r_tog: false, t_res: Some(RES_NAK), r_res: None },
        ),
        HwOp::Wake(WakerId::In(index as usize)),
    );
}

/// A completed OUT transfer keeps the length of the packet, advances the
/// endpoint's OUT toggle, makes the host wait until the packet was read, wakes the
/// reader, and changes nothing else.
pub proof fn law_out_complete(hw: Hardware, index: int, rx_len: u16)
    ensures
        run(hw, out_ops(index, rx_len)) == (Hardware {
            ctrl: hw.ctrl.insert(
                spec_ep_ctrl(index),
                UepCtrl {
                    r_tog: !hw.ctrl[spec_ep_ctrl(index)].r_tog,
                    r_res: RES_NAK,
                    ..hw.ctrl[spec_ep_ctrl(index)]
                },
            ),
            out_len: hw.out_len.insert(index as usize, rx_len),
            woken: hw.woken.insert(WakerId::Out(index as usize)),
            ..hw
        }),
{
    lemma_run_3(
        hw,
        HwOp::StoreOutLen { index: index as usize, len: rx_len },
        HwOp::ModifyCtrl(
            spec_ep_ctrl(index),
            CtrlUpdate { flip_t_tog: false, flip_r_tog: true, t_res: None, r_res: Some(RES_NAK) },
        ),
        HwOp::Wake(WakerId::Out(index as usize)),
    );
}

/// The data toggle alternates: two completed transfers in one direction bring it
/// back, and leave the toggle of the other direction alone.
pub proof fn law_toggle_alternates(hw: Hardware, index: int, rx_len1: u16, rx_len2: u16)
    ensures
        ({
            let reg = spec_ep_ctrl(index);
            let sent1 = run(hw, in_ops(index));
            let sent2 = run(sent1, in_ops(index));
            let got1 = run(hw, out_ops(index, rx_len1));
            let got2 = run(got1, out_ops(index, rx_len2));
            &&& sent1.ctrl[reg].t_tog != hw.ctrl[reg].t_tog
            &&& sent2.ctrl[reg].t_tog == hw.ctrl[reg].t_tog
            &&& sent2.ctrl[reg].r_tog == hw.ctrl[reg].r_tog
            &&& got1.ctrl[reg].r_tog != hw.ctrl[reg].r_tog
            &&& got2.ctrl[reg].r_tog == hw.ctrl[reg].r_tog
            &&& got2.ctrl[reg].t_tog == hw.ctrl[reg].t_tog
        }),
{
    law_in_complete(hw, index);
    law_in_complete(run(hw, in_ops(index)), index);
    law_out_complete(hw, index, rx_len1);
    law_out_complete(run(hw, out_ops(index, rx_len1)), index, rx_len2);
}

/// The control register that a transfer interrupt may change.
pub open spec fn transfer_reg(status: InterruptStatus) -> CtrlReg {
    if status.token == TOKEN_SETUP {
        spec_ep_ctrl(0)
    } else {
        spec_ep_ctrl(status.endp as int)
    }
}

/// What an interrupt leaves alone: it changes the response of no endpoint but that
/// of the transfer, and decides nothing for the tasks: buffers, lengths to send,
/// the device address and the setup of the peripheral stay.
pub proof fn law_interrupt_frame(hw: Hardware, ep_count: usize, status: InterruptStatus)
    ensures
        ({
            let after = run(hw, interrupt_ops(ep_count, status));
            &&& after == Hardware {
                ctrl: after.ctrl,
                out_len: after.out_len,
                setup: after.setup,
                irq: after.irq,
                int_fg: after.int_fg,
                woken: after.woken,
                ..hw
            }
            &&& forall|reg: CtrlReg|
                !status.int_fg.transfer || reg != transfer_reg(status)
                    ==> #[trigger] after.ctrl[reg] == hw.ctrl[reg]
            &&& forall|id: WakerId| hw.woken.contains(id) ==> #[trigger] after.woken.contains(id)
        }),
{
    lemma_interrupt(hw, ep_count, status);
    lemma_transfer(hw, ep_count, status);
}

/// What a transfer interrupt does before it is acknowledged.
pub(crate) proof fn lemma_transfer(hw: Hardware, ep_count: usize, status: InterruptStatus)
    ensures
        ({
            let served = run(hw, transfer_ops(ep_count, status));
            &&& served == Hardware {
                ctrl: served.ctrl,
                out_len: served.out_len,
                setup: served.setup,
                woken: served.woken,
                ..hw
            }
            &&& forall|reg: CtrlReg|
                reg != transfer_reg(status) ==> #[trigger] served.ctrl[reg] == hw.ctrl[reg]
            &&& forall|id: WakerId| hw.woken.contains(id) ==> #[trigger] served.woken.contains(id)
        }),
{
    if status.token == TOKEN_SETUP {
        law_setup(hw);
    } else if status.token == TOKEN_IN {
        law_in_complete(hw, status.endp as int);
    } else if status.token == TOKEN_OUT {
        law_out_complete(hw, status.endp as int, status.rx_len);
    }
}

/// What an interrupt does, by its cause.
pub(crate) proof fn lemma_interrupt(hw: Hardware, ep_count: usize, status: InterruptStatus)
    ensures
        ({
            let none = IntFg { transfer: false, bus_rst: false, suspend: false, rest: 0 };
            run(hw, interrupt_ops(ep_count, status)) == if status.int_fg.transfer {
                Hardware {
                    int_fg: clear_flags(hw.int_fg, IntFg { transfer: true, ..none }),
                    ..run(hw, transfer_ops(ep_count, status))
                }
            } else if status.int_fg.bus_rst {
                Hardware {
                    int_fg: clear_flags(hw.int_fg, IntFg { bus_rst: true, ..none }),
                    irq: store_irq(hw.irq, IrqFlag::Reset, true),
                    woken: hw.woken.insert(WakerId::Bus),
                    ..hw
                }
            } else if status.int_fg.suspend {
                Hardware { int_fg: clear_flags(hw.int_fg, IntFg { suspend: true, ..none }), ..hw }
            } else {
                Hardware { int_fg: clear_flags(hw.int_fg, status.int_fg), ..hw }
            }
        }),
{
    let none = IntFg { transfer: false, bus_rst: false, suspend: false, rest: 0 };
    if status.int_fg.transfer {
        lemma_transfer(hw, ep_count, status);
        lemma_run_push(
            hw,
            transfer_ops(ep_count, status),
            HwOp::WriteIntFg(IntFg { transfer: true, ..none }),
        );
    } else if status.int_fg.bus_rst {
        lemma_run_3(
            hw,
            HwOp::WriteIntFg(IntFg { bus_rst: true, ..none }),
            HwOp::StoreIrq(IrqFlag::Reset, true),
            HwOp::Wake(WakerId::Bus),
        );
    } else if status.int_fg.suspend {
        lemma_run_1(hw, HwOp::WriteIntFg(IntFg { suspend: true, ..none }));
    } else {
        lemma_run_1(hw, HwOp::WriteIntFg(status.int_fg));
    }
}

/// An interrupt is acknowledged: of the flags that were read, the one that was
/// served is cleared and the others stay to be served next; if none of the
/// driver's flags was set, all are cleared.
pub proof fn law_interrupt_acknowledged(hw: Hardware, ep_count: usize, status: InterruptStatus)
    requires
        status.int_fg == hw.int_fg,
    ensures
        ({
            let fg = hw.int_fg;
            let left = run(hw, interrupt_ops(ep_count, status)).int_fg;
            if fg.transfer {
                left == IntFg { transfer: false, ..fg }
            } else if fg.bus_rst {
                left == IntFg { bus_rst: false, ..fg }
            } else if fg.suspend {
                left == IntFg { suspend: false, ..fg }
            } else {
                left == IntFg { transfer: false, bus_rst: false, suspend: false, rest: 0 }
            }
        }),
{
    let rest = hw.int_fg.rest;
    lemma_interrupt(hw, ep_count, status);
    lemma_transfer(hw, ep_count, status);
    assert(rest & !0u8 == rest) by (bit_vector);
    assert(rest & !rest == 0) by (bit_vector);
}

/// The bus task is told whether the bus was suspended or came back, and woken.
/// Nothing else changes.
pub proof fn law_suspend_changed(hw: Hardware, suspended: bool)
    ensures
        run(hw, suspend_ops(suspended)) == (Hardware {
            irq: if suspended {
                IrqFlags { suspend: true, ..hw.irq }
            } else {
                IrqFlags { resume: true, ..hw.irq }
            },
            woken: hw.woken.insert(WakerId::Bus),
            ..hw
        }),
{
    lemma_run_2(
        hw,
        HwOp::StoreIrq(
            if suspended {
                IrqFlag::Suspend
            } else {
                IrqFlag::Resume
            },
            true,
        ),
        HwOp::Wake(WakerId::Bus),
    );
}

/// `MIS_ST` is consulted exactly for a suspend interrupt, and only after its flag
/// was cleared, so that a later change raises the flag anew.
pub proof fn law_suspend_read_after_clear(hw: Hardware, ep_count: usize, status: InterruptStatus)
    ensures
        interrupt_next(status) == Served::SuspendChanged ==> {
            let after = run(hw, interrupt_ops(ep_count, status));
            &&& !after.int_fg.suspend
            &&& after.irq == hw.irq
            &&& after.woken == hw.woken
        },
{
    lemma_interrupt(hw, ep_count, status);
}

/// Tokens other than SETUP on endpoints outside the table or on endpoint 4, which is
/// not supported, and start-of-frame tokens, do nothing but acknowledge the
/// interrupt.
pub proof fn law_foreign_transfer_ignored(hw: Hardware, ep_count: usize, status: InterruptStatus)
    requires
        status.int_fg.transfer,
        status.token != TOKEN_SETUP,
        status.endp >= ep_count || status.token != TOKEN_IN && status.token != TOKEN_OUT
            || status.endp == 4,
    ensures
        run(hw, interrupt_ops(ep_count, status)) == (Hardware {
            int_fg: IntFg { transfer: false, ..hw.int_fg },
            ..hw
        }),
{
    let rest = hw.int_fg.rest;
    lemma_interrupt(hw, ep_count, status);
    assert(rest & !0u8 == rest) by (bit_vector);
}

/// The flags of `INT_FG` without the transfer flag.
pub open spec fn transfer_cleared(fg: IntFg) -> IntFg {
    IntFg { transfer: false, bus_rst: fg.bus_rst, suspend: fg.suspend, rest: fg.rest }
}

/// A SETUP interrupt, whatever endpoint it names, puts both directions of endpoint 0
/// to DATA1 and NAK, notes the packet, wakes the OUT waker of endpoint 0, clears the
/// transfer flag, and does nothing else.
pub proof fn law_setup_interrupt(hw: Hardware, ep_count: usize, status: InterruptStatus)
    requires
        status.int_fg.transfer,
        status.token == 3,
    ensures
        run(hw, interrupt_ops(ep_count, status)) == (Hardware {
            ctrl: hw.ctrl.insert(
                CtrlReg::Uep01234(0),
                UepCtrl { t_tog: true, r_tog: true, t_res: 2, r_res: 2 },
            ),
            setup: true,
            woken: hw.woken.insert(WakerId::Out(0)),
            int_fg: transfer_cleared(hw.int_fg),
            ..hw
        }),
{
    let rest = hw.int_fg.rest;
    assert(rest & !0u8 == rest) by (bit_vector);
    lemma_interrupt(hw, ep_count, status);
    law_setup(hw);
}

/// An IN interrupt for any endpoint of the table other than endpoint 4 advances the
/// IN toggle of that endpoint, puts it to NAK, wakes its IN waker, clears the
/// transfer flag, and does nothing else.
pub proof fn law_in_interrupt(hw: Hardware, ep_count: usize, status: InterruptStatus)
    requires
        status.int_fg.transfer,
        status.token == 2,
        status.endp < ep_count <= 8,
        status.endp != 4,
    ensures
        ({
            let endp = status.endp as int;
            let cur = hw.ctrl[ctrl_of(endp)];
            run(hw, interrupt_ops(ep_count, status)) == Hardware {
                ctrl: hw.ctrl.insert(
                    ctrl_of(endp),
                    UepCtrl { t_tog: !cur.t_tog, r_tog: cur.r_tog, t_res: 2, r_res: cur.r_res },
                ),
                woken: hw.woken.insert(WakerId::In(status.endp as usize)),
                int_fg: transfer_cleared(hw.int_fg),
                ..hw
            }
        }),
{
    let rest = hw.int_fg.rest;
    assert(rest & !0u8 == rest) by (bit_vector);
    lemma_interrupt(hw, ep_count, status);
    law_in_complete(hw, status.endp as int);
}

/// An OUT interrupt for any endpoint of the table other than endpoint 4 keeps the
/// length received for that endpoint, advances its OUT toggle, puts it to NAK, wakes
/// its OUT waker, clears the transfer flag, and does nothing else.
pub proof fn law_out_interrupt(hw: Hardware, ep_count: usize, status: InterruptStatus)
    requires
        status.int_fg.transfer,
        status.token == 0,
        status.endp < ep_count <= 8,
        status.endp != 4,
    ensures
        ({
            let endp = status.endp as int;
            let cur = hw.ctrl[ctrl_of(endp)];
            run(hw, interrupt_ops(ep_count, status)) == Hardware {
                ctrl: hw.ctrl.insert(
                    ctrl_of(endp),
                    UepCtrl { t_tog: cur.t_tog, r_tog: !cur.r_tog, t_res: cur.t_res, r_res: 2 },
                ),
                out_len: hw.out_len.insert(status.endp as usize, status.rx_len),
                woken: hw.woken.insert(WakerId::Out(status.endp as usize)),
                int_fg: transfer_cleared(hw.int_fg),
                ..hw
            }
        }),
{
    let rest = hw.int_fg.rest;
    assert(rest & !0u8 == rest) by (bit_vector);
    lemma_interrupt(hw, ep_count, status);
    law_out_complete(hw, status.endp as int, status.rx_len);
}

/// Every other transfer interrupt (start of frame, an endpoint outside the table,
/// endpoint 4) clears the transfer flag and does nothing else.
pub proof fn law_other_transfer_interrupt(hw: Hardware, ep_count: usize, status: InterruptStatus)
    requires
        status.int_fg.transfer,
        status.token != 3,
        status.token != 2 && status.token != 0 || status.endp >= ep_count || status.endp == 4,
    ensures
        run(hw, interrupt_ops(ep_count, status)) == (Hardware {
            int_fg: transfer_cleared(hw.int_fg),
            ..hw
        }),
{
    law_foreign_transfer_ignored(hw, ep_count, status);
}

/// An interrupt without the transfer flag: a bus reset is cleared, noted, and wakes
/// the bus task; else a suspend flag is cleared; else the flags are cleared as they
/// were read. Nothing else happens.
pub proof fn law_bus_interrupt(hw: Hardware, ep_count: usize, status: InterruptStatus)
    requires
        !status.int_fg.transfer,
        status.int_fg == hw.int_fg,
    ensures
        run(hw, interrupt_ops(ep_count, status)) == if hw.int_fg.bus_rst {
            Hardware {
                int_fg: IntFg { bus_rst: false, ..hw.int_fg },
                irq: IrqFlags {
                    reset: true,
                    suspend: hw.irq.suspend,
                    resume: hw.irq.resume,
                },
                woken: hw.woken.insert(WakerId::Bus),
                ..hw
            }
        } else if hw.int_fg.suspend {
            Hardware { int_fg: IntFg { suspend: false, ..hw.int_fg }, ..hw }
        } else {
            Hardware {
                int_fg: IntFg { transfer: false, bus_rst: false, suspend: false, rest: 0 },
                ..hw
            }
        },
{
    let rest = hw.int_fg.rest;
    assert(rest & !0u8 == rest) by (bit_vector);
    assert(rest & !rest == 0) by (bit_vector);
    lemma_interrupt(hw, ep_count, status);
}

/// The handler is called for the bus state exactly when a suspend flag is what is
/// served: it is set, and neither a transfer nor a bus reset comes before it.
pub proof fn law_suspend_served_last(status: InterruptStatus)
    ensures
        interrupt_next(status) == Served::SuspendChanged <==> status.int_fg.suspend
            && !status.int_fg.transfer && !status.int_fg.bus_rst,
        interrupt_next(status) == Served::Completely <==> !(status.int_fg.suspend
            && !status.int_fg.transfer && !status.int_fg.bus_rst),
{
}

/// A transfer is served before it is acknowledged: the transfer flag is the last
/// thing that changes, so that the hardware does not go on while its status is in
/// use. A bus cause is acknowledged first, so that the next one is not missed.
pub proof fn law_acknowledge_order(hw: Hardware, ep_count: usize, status: InterruptStatus, k: int)
    requires
        0 <= k < interrupt_ops(ep_count, status).len(),
    ensures
        ({
            let ops = interrupt_ops(ep_count, status);
            let part = run(hw, ops.take(k));
            let whole = run(hw, ops);
            &&& status.int_fg.transfer ==> part.int_fg == hw.int_fg
            &&& !status.int_fg.transfer && k > 0 ==> part.int_fg == whole.int_fg
        }),
{
    let ops = interrupt_ops(ep_count, status);
    lemma_run_ends(hw, ops);
    lemma_run_take(hw, ops, 0);
    if ops.len() > 1 {
        lemma_run_take(hw, ops, 1);
    }
    if ops.len() > 2 {
        lemma_run_take(hw, ops, 2);
    }
    if ops.len() > 3 {
        lemma_run_take(hw, ops, 3);
    }
}

/// A task is woken after what it waits for is in place: when a waker has been woken,
/// registers, lengths and notes are as the interrupt leaves them.
pub proof fn law_interrupt_wakes_last(
    hw: Hardware,
    ep_count: usize,
    status: InterruptStatus,
    suspended: bool,
    k: int,
)
    ensures
        0 <= k <= interrupt_ops(ep_count, status).len() ==> {
            let ops = interrupt_ops(ep_count, status);
            let part = run(hw, ops.take(k));
            let whole = run(hw, ops);
            part.woken == hw.woken || part == Hardware { int_fg: part.int_fg, ..whole }
        },
        0 <= k <= suspend_ops(suspended).len() ==> {
            let part = run(hw, suspend_ops(suspended).take(k));
            part.woken == hw.woken || part == run(hw, suspend_ops(suspended))
        },
{
    let ops = interrupt_ops(ep_count, status);
    lemma_run_ends(hw, ops);
    lemma_run_take(hw, ops, 0);
    if ops.len() > 1 {
        lemma_run_take(hw, ops, 1);
    }
    if ops.len() > 2 {
        lemma_run_take(hw, ops, 2);
    }
    if ops.len() > 3 {
        lemma_run_take(hw, ops, 3);
    }
    let ops = suspend_ops(suspended);
    lemma_run_ends(hw, ops);
    lemma_run_take(hw, ops, 0);
    lemma_run_take(hw, ops, 1);
}

/// What an interrupt does to the flags, whatever was raised since they were read: the
/// flag that was served is cleared; if none of the driver's flags was read, the other
/// flags that were read are; and every other flag stays to be served.
pub proof fn law_flags_raised_meanwhile(hw: Hardware, ep_count: usize, status: InterruptStatus)
    ensures
        ({
            let fg = hw.int_fg;
            let read = status.int_fg;
            run(hw, interrupt_ops(ep_count, status)).int_fg == if read.transfer {
                IntFg { transfer: false, bus_rst: fg.bus_rst, suspend: fg.suspend, rest: fg.rest }
            } else if read.bus_rst {
                IntFg { transfer: fg.transfer, bus_rst: false, suspend: fg.suspend, rest: fg.rest }
            } else if read.suspend {
                IntFg { transfer: fg.transfer, bus_rst: fg.bus_rst, suspend: false, rest: fg.rest }
            } else {
                IntFg {
                    transfer: fg.transfer,
                    bus_rst: fg.bus_rst,
                    suspend: fg.suspend,
                    rest: fg.rest & !read.rest,
                }
            }
        }),
{
    let rest = hw.int_fg.rest;
    assert(rest & !0u8 == rest) by (bit_vector);
    lemma_interrupt(hw, ep_count, status);
    lemma_transfer(hw, ep_count, status);
}

/// What an interrupt without the transfer flag does apart from the flags, whatever
/// was raised since they were read: a bus reset is noted and wakes the bus task;
/// nothing else changes.
pub proof fn law_bus_interrupt_notes(hw: Hardware, ep_count: usize, status: InterruptStatus)
    requires
        !status.int_fg.transfer,
    ensures
        ({
            let after = run(hw, interrupt_ops(ep_count, status));
            after == if status.int_fg.bus_rst {
                Hardware {
                    int_fg: after.int_fg,
                    irq: IrqFlags {
                        reset: true,
                        suspend: hw.irq.suspend,
                        resume: hw.irq.resume,
                    },
                    woken: hw.woken.insert(WakerId::Bus),
                    ..hw
                }
            } else {
                Hardware { int_fg: after.int_fg, ..hw }
            }
        }),
{
    lemma_interrupt(hw, ep_count, status);
}

} // verus!
