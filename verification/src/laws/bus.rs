//! Bus events and the state of endpoints.

use crate::bus::{
    bus_event, cut_ops, endpoints_reset_ops, event_ops, is_stalled, reset_ops, respond_ops,
    set_enabled_ops, set_stalled_ops, wake_in_ops, wake_out_ops, IrqFlags,
};
use crate::control::{
    data_in_ops, data_in_step, data_out_ops, data_out_step, set_address_ops, status_step, Stage,
    Step,
};
use crate::endpoint::{
    dir_res, dir_waker, enabled_outcome, read_ops, read_outcome, write_ops, write_outcome,
};
use crate::endpoints::{has_buffer, spec_ep_buf, spec_ep_ctrl};
use crate::interrupt::{interrupt_ops, suspend_ops, InterruptStatus};
use crate::laws::control::look;
use crate::laws::interrupts::{
    law_in_complete, law_out_complete, law_setup, law_suspend_changed, lemma_interrupt,
    lemma_transfer,
};
use crate::laws::transfers::{law_read_effect, law_write_effect};
use crate::model::{
    ctrl_of, dma_of, lemma_run_1, lemma_run_2, lemma_run_3, lemma_run_add, lemma_run_ends,
    lemma_run_push, lemma_run_take, run, step, Hardware,
};
use crate::regs::{
    CtrlReg, CtrlUpdate, HwOp, IrqFlag, UepCtrl, WakerId, RES_ACK, RES_NAK, RES_STALL,
};
use crate::usb::{law_address_bits, Direction, EndpointAddress, EndpointError, Event, Poll};
use vstd::prelude::*;

verus! {

/// Power is reported by the first look at the bus, whatever else has happened, and
/// by no later one.
pub proof fn law_power_reported_first(irq: IrqFlags)
    ensures
        bus_event(false, irq) == Poll::Ready(Event::PowerDetected),
        bus_event(true, irq) != Poll::Ready(Event::PowerDetected),
{
}

/// Reporting power consumes no event: what the interrupt handler left is reported
/// next.
pub proof fn law_power_loses_no_event(hw: Hardware, ep_count: int)
    ensures
        run(hw, event_ops(ep_count, bus_event(false, hw.irq))) == hw,
{
}

/// The control register of an endpoint below `n` that a reset puts back.
pub open spec fn is_reset_reg(n: int, reg: CtrlReg) -> bool {
    exists|i: int| 0 <= i < n && i != 4 && reg == #[trigger] spec_ep_ctrl(i)
}

proof fn lemma_endpoints_reset(hw: Hardware, n: int)
    requires
        1 <= n <= 8,
    ensures
        ({
            let after = run(hw, endpoints_reset_ops(n));
            &&& after == Hardware { ctrl: after.ctrl, ..hw }
            &&& forall|i: int|
                1 <= i < n && i != 4 ==> #[trigger] after.ctrl[spec_ep_ctrl(i)] == UepCtrl {
                    t_tog: false,
                    r_tog: false,
                    t_res: RES_NAK,
                    r_res: RES_NAK,
                }
            &&& after.ctrl[spec_ep_ctrl(0)] == hw.ctrl[spec_ep_ctrl(0)]
            &&& forall|reg: CtrlReg|
                !is_reset_reg(n, reg) ==> #[trigger] after.ctrl[reg] == hw.ctrl[reg]
        }),
    decreases n,
{
    if n > 1 {
        let mid = run(hw, endpoints_reset_ops(n - 1));
        let after = run(hw, endpoints_reset_ops(n));
        lemma_endpoints_reset(hw, n - 1);
        if n - 1 != 4 {
            lemma_run_push(
                hw,
                endpoints_reset_ops(n - 1),
                HwOp::WriteCtrl(
                    spec_ep_ctrl(n - 1),
                    UepCtrl { t_tog: false, r_tog: false, t_res: RES_NAK, r_res: RES_NAK },
                ),
            );
        }
        assert forall|reg: CtrlReg| !is_reset_reg(n, reg) implies #[trigger] after.ctrl[reg]
            == hw.ctrl[reg] by {
            assert(!is_reset_reg(n - 1, reg));
            assert(mid.ctrl[reg] == hw.ctrl[reg]);
            if n - 1 != 4 {
                assert(reg != spec_ep_ctrl(n - 1));
            }
        }
    }
}

proof fn lemma_cut(hw: Hardware, n: int)
    requires
        0 <= n <= usize::MAX,
    ensures
        ({
            let after = run(hw, cut_ops(n));
            &&& after == Hardware { cut: after.cut, ..hw }
            &&& forall|i: usize, dir: Direction|
                #[trigger] after.cut[(i, dir)] == (i < n || hw.cut[(i, dir)])
        }),
    decreases n,
{
    if n > 0 {
        let mid = run(hw, cut_ops(n - 1));
        let a = HwOp::StoreCut { index: (n - 1) as usize, dir: Direction::In, value: true };
        let b = HwOp::StoreCut { index: (n - 1) as usize, dir: Direction::Out, value: true };
        lemma_cut(hw, n - 1);
        lemma_run_add(hw, cut_ops(n - 1), seq![a, b]);
        lemma_run_2(mid, a, b);
        let after = run(hw, cut_ops(n));
        assert forall|i: usize, dir: Direction| #[trigger]
            after.cut[(i, dir)] == (i < n || hw.cut[(i, dir)]) by {
            assert(mid.cut[(i, dir)] == (i < n - 1 || hw.cut[(i, dir)]));
            assert(dir == Direction::In || dir == Direction::Out);
        }
    }
}

proof fn lemma_wake_in(hw: Hardware, n: int)
    requires
        0 <= n <= usize::MAX,
    ensures
        ({
            let after = run(hw, wake_in_ops(n));
            &&& after == Hardware { woken: after.woken, ..hw }
            &&& forall|id: WakerId| #[trigger]
                after.woken.contains(id) <==> hw.woken.contains(id) || (id is In && id->In_0 < n)
        }),
    decreases n,
{
    if n > 0 {
        lemma_wake_in(hw, n - 1);
        assert(wake_in_ops(n) =~= wake_in_ops(n - 1).push(
            HwOp::Wake(WakerId::In((n - 1) as usize)),
        ));
        lemma_run_push(hw, wake_in_ops(n - 1), HwOp::Wake(WakerId::In((n - 1) as usize)));
    }
}

proof fn lemma_wake_out(hw: Hardware, n: int)
    requires
        0 <= n <= usize::MAX,
    ensures
        ({
            let after = run(hw, wake_out_ops(n));
            &&& after == Hardware { woken: after.woken, ..hw }
            &&& forall|id: WakerId| #[trigger]
                after.woken.contains(id) <==> hw.woken.contains(id) || (id is Out && id->Out_0
                    < n)
        }),
    decreases n,
{
    if n > 0 {
        lemma_wake_out(hw, n - 1);
        assert(wake_out_ops(n) =~= wake_out_ops(n - 1).push(
            HwOp::Wake(WakerId::Out((n - 1) as usize)),
        ));
        lemma_run_push(hw, wake_out_ops(n - 1), HwOp::Wake(WakerId::Out((n - 1) as usize)));
    }
}

/// A bus reset puts the device back to address 0, the control endpoint to
/// receiving and the other endpoints to NAK, all with their toggles at DATA0; it
/// cuts the transfers of every endpoint of the table and wakes every task that waits
/// for one; and it is reported once. It changes nothing else, not even the control
/// register of endpoint 4.
pub proof fn law_reset(hw: Hardware, ep_count: int)
    requires
        1 <= ep_count <= 8,
    ensures
        ({
            let after = run(hw, reset_ops(ep_count));
            &&& after.dev_addr == 0
            &&& after.ctrl[spec_ep_ctrl(0)] == UepCtrl {
                t_tog: false,
                r_tog: false,
                t_res: RES_NAK,
                r_res: RES_ACK,
            }
            &&& forall|i: int|
                1 <= i < ep_count && i != 4 ==> #[trigger] after.ctrl[spec_ep_ctrl(i)] == UepCtrl {
                    t_tog: false,
                    r_tog: false,
                    t_res: RES_NAK,
                    r_res: RES_NAK,
                }
            &&& forall|reg: CtrlReg|
                !is_reset_reg(ep_count, reg) ==> #[trigger] after.ctrl[reg] == hw.ctrl[reg]
            &&& after.ctrl[spec_ep_ctrl(4)] == hw.ctrl[spec_ep_ctrl(4)]
            &&& after.irq == IrqFlags { reset: false, ..hw.irq }
            &&& forall|i: usize, dir: Direction| #[trigger]
                after.cut[(i, dir)] == (i < ep_count || hw.cut[(i, dir)])
            &&& forall|id: WakerId| #[trigger]
                after.woken.contains(id) <==> hw.woken.contains(id) || (id is In && id->In_0
                    < ep_count) || (id is Out && id->Out_0 < ep_count)
            &&& after == Hardware {
                dev_addr: after.dev_addr,
                ctrl: after.ctrl,
                irq: after.irq,
                cut: after.cut,
                woken: after.woken,
                ..hw
            }
        }),
{
    let flag = HwOp::StoreIrq(IrqFlag::Reset, false);
    let addr = HwOp::WriteDevAd(0);
    let ctrl = HwOp::WriteCtrl(
        CtrlReg::Uep01234(0),
        UepCtrl { t_tog: false, r_tog: false, t_res: RES_NAK, r_res: RES_ACK },
    );
    let p1 = seq![flag] + cut_ops(ep_count);
    let p2 = p1 + seq![addr, ctrl];
    let p3 = p2 + endpoints_reset_ops(ep_count);
    let p4 = p3 + wake_in_ops(ep_count);
    let h0 = run(hw, seq![flag]);
    let h1 = run(h0, cut_ops(ep_count));
    let h2 = run(h1, seq![addr, ctrl]);
    let h3 = run(h2, endpoints_reset_ops(ep_count));
    let h4 = run(h3, wake_in_ops(ep_count));
    let h5 = run(h4, wake_out_ops(ep_count));
    assert(run(hw, reset_ops(ep_count)) == h5) by {
        lemma_run_add(hw, seq![flag], cut_ops(ep_count));
        lemma_run_add(hw, p1, seq![addr, ctrl]);
        lemma_run_add(hw, p2, endpoints_reset_ops(ep_count));
        lemma_run_add(hw, p3, wake_in_ops(ep_count));
        lemma_run_add(hw, p4, wake_out_ops(ep_count));
    }
    lemma_run_1(hw, flag);
    lemma_cut(h0, ep_count);
    lemma_run_2(h1, addr, ctrl);
    lemma_endpoints_reset(h2, ep_count);
    lemma_wake_in(h3, ep_count);
    lemma_wake_out(h4, ep_count);
    assert forall|reg: CtrlReg| !is_reset_reg(ep_count, reg) implies #[trigger] h5.ctrl[reg]
        == hw.ctrl[reg] by {
        assert(reg != spec_ep_ctrl(0));
        assert(h3.ctrl[reg] == h2.ctrl[reg]);
    }
    assert(!is_reset_reg(ep_count, spec_ep_ctrl(4)));
}

/// A bus reset cuts the transfers under way: whatever they wait for, the tasks are
/// woken and find that their transfers failed as disabled, with nothing received,
/// queued or changed. That the reset puts the endpoints to rest is not taken for a
/// packet received or sent. On endpoint 0 this holds of every stage of a control
/// transfer; a SET_ADDRESS that is under way is not completed, and the device stays
/// at address 0.
pub proof fn law_reset_cuts_transfers(
    hw: Hardware,
    ep_count: int,
    index: int,
    data: Seq<u8>,
    max: u16,
    buf_len: nat,
    stage: Stage,
    last: bool,
    addr: u8,
)
    requires
        1 <= ep_count <= 8,
        0 <= index < ep_count,
        data.len() <= max,
    ensures
        ({
            let after = run(hw, reset_ops(ep_count));
            let ctrl = after.ctrl[spec_ep_ctrl(index)];
            let read = read_outcome(
                after.cut[(index as usize, Direction::Out)],
                ctrl.r_res,
                after.out_len[index as usize],
                buf_len,
            );
            let wrote = write_outcome(
                data.len(),
                max,
                after.cut[(index as usize, Direction::In)],
                ctrl.t_res,
            );
            &&& after.woken.contains(dir_waker(index, Direction::In))
            &&& after.woken.contains(dir_waker(index, Direction::Out))
            &&& read == Poll::Ready(Err::<usize, EndpointError>(EndpointError::Disabled))
            &&& run(after, read_ops(index, read)) == after
            &&& wrote == Poll::Ready(Err::<(), EndpointError>(EndpointError::Disabled))
            &&& run(after, write_ops(index, data, wrote)) == after
            &&& data_out_step(stage, look(after), buf_len) == Step::Done(
                Err::<usize, EndpointError>(EndpointError::Disabled),
            )
            &&& run(after, data_out_ops(stage, look(after))) == after
            &&& data_in_step(stage, look(after), data.len(), max) == Step::Done(
                Err::<(), EndpointError>(EndpointError::Disabled),
            )
            &&& run(after, data_in_ops(stage, look(after), data, last, max)) == after
            &&& status_step(stage, look(after)) == Step::Done(false)
            &&& run(after, set_address_ops(stage, look(after), addr)) == after
            &&& after.dev_addr == 0
        }),
{
    law_reset(hw, ep_count);
}

/// Each event that the interrupt handler leaves is reported once: reporting it
/// takes it away, and takes no other event away.
pub proof fn law_event_reported_once(hw: Hardware, ep_count: int)
    requires
        1 <= ep_count <= 8,
    ensures
        ({
            let after = run(hw, event_ops(ep_count, bus_event(true, hw.irq)));
            after.irq == if hw.irq.reset {
                IrqFlags { reset: false, ..hw.irq }
            } else if hw.irq.resume {
                IrqFlags { resume: false, ..hw.irq }
            } else {
                IrqFlags { suspend: false, ..hw.irq }
            }
        }),
{
    law_reset(hw, ep_count);
    lemma_run_1(hw, HwOp::StoreIrq(IrqFlag::Resume, false));
    lemma_run_1(hw, HwOp::StoreIrq(IrqFlag::Suspend, false));
}

/// A bus reset reaches the bus task: it is woken, and its next look reports it.
pub proof fn law_reset_reported(hw: Hardware, ep_count: usize, status: InterruptStatus)
    requires
        !status.int_fg.transfer,
        status.int_fg.bus_rst,
    ensures
        ({
            let after = run(hw, interrupt_ops(ep_count, status));
            &&& after.woken.contains(WakerId::Bus)
            &&& bus_event(true, after.irq) == Poll::Ready(Event::Reset)
        }),
{
    lemma_interrupt(hw, ep_count, status);
}

/// A suspend or resume reaches the bus task: it is woken, and once what comes
/// before it was reported, it is reported.
pub proof fn law_suspend_reported(hw: Hardware, suspended: bool)
    ensures
        ({
            let after = run(hw, suspend_ops(suspended));
            &&& after.woken.contains(WakerId::Bus)
            &&& !hw.irq.reset && !suspended ==> bus_event(true, after.irq) == Poll::Ready(
                Event::Resume,
            )
            &&& !hw.irq.reset && !hw.irq.resume && suspended ==> bus_event(true, after.irq)
                == Poll::Ready(Event::Suspend)
        }),
{
    law_suspend_changed(hw, suspended);
}

/// Giving a direction of an endpoint a response changes that response, takes the
/// note of a reset away, wakes the task that waits there, and changes nothing else:
/// neither the other direction nor the toggles.
pub proof fn law_respond(hw: Hardware, addr: EndpointAddress, t_res: u8, r_res: u8)
    ensures
        ({
            let index = addr.spec_index();
            let reg = spec_ep_ctrl(index);
            let dir = addr.spec_direction();
            run(hw, respond_ops(addr, t_res, r_res)) == Hardware {
                ctrl: hw.ctrl.insert(
                    reg,
                    if dir == Direction::In {
                        UepCtrl { t_res, ..hw.ctrl[reg] }
                    } else {
                        UepCtrl { r_res, ..hw.ctrl[reg] }
                    },
                ),
                cut: hw.cut.insert((index as usize, dir), false),
                woken: hw.woken.insert(dir_waker(index, dir)),
                ..hw
            }
        }),
{
    let index = addr.spec_index();
    let reg = spec_ep_ctrl(index);
    lemma_run_3(
        hw,
        HwOp::ModifyCtrl(reg, CtrlUpdate::spec_set_t_res(t_res)),
        HwOp::StoreCut { index: index as usize, dir: Direction::In, value: false },
        HwOp::Wake(WakerId::In(index as usize)),
    );
    lemma_run_3(
        hw,
        HwOp::ModifyCtrl(reg, CtrlUpdate::spec_set_r_res(r_res)),
        HwOp::StoreCut { index: index as usize, dir: Direction::Out, value: false },
        HwOp::Wake(WakerId::Out(index as usize)),
    );
}

/// The stall of an endpoint is what it was last set to. Cleared, an IN endpoint is
/// at rest and an OUT endpoint accepts data again.
pub proof fn law_stall(hw: Hardware, addr: EndpointAddress, stalled: bool)
    ensures
        ({
            let ctrl = run(hw, set_stalled_ops(addr, stalled)).ctrl[spec_ep_ctrl(
                addr.spec_index(),
            )];
            &&& is_stalled(addr, ctrl) == stalled
            &&& !stalled ==> dir_res(ctrl, addr.spec_direction()) == match addr.spec_direction() {
                Direction::In => RES_NAK,
                Direction::Out => RES_ACK,
            }
        }),
{
    law_respond(hw, addr, RES_NAK, RES_ACK);
    law_respond(hw, addr, RES_STALL, RES_STALL);
}

/// Stalling one direction leaves the stall of the other direction, and of the
/// other endpoints, as it was.
pub proof fn law_stall_is_separate(
    hw: Hardware,
    addr: EndpointAddress,
    stalled: bool,
    other: EndpointAddress,
)
    requires
        addr.spec_index() != other.spec_index() || addr.spec_direction() != other.spec_direction(),
    ensures
        is_stalled(
            other,
            run(hw, set_stalled_ops(addr, stalled)).ctrl[spec_ep_ctrl(other.spec_index())],
        ) == is_stalled(other, hw.ctrl[spec_ep_ctrl(other.spec_index())]),
{
    law_respond(hw, addr, RES_NAK, RES_ACK);
    law_respond(hw, addr, RES_STALL, RES_STALL);
}

/// A disabled endpoint fails every transfer until it is enabled: reads and writes
/// fail at once, and waits for it to be enabled go on. Enabled, it is not stalled
/// any more, nor cut by an earlier reset: an IN endpoint takes a packet at once, an
/// OUT endpoint waits for one.
pub proof fn law_enable(
    hw: Hardware,
    addr: EndpointAddress,
    enabled: bool,
    rx_len: u16,
    buf_len: nat,
    len: nat,
    max: u16,
)
    requires
        len <= max,
    ensures
        ({
            let after = run(hw, set_enabled_ops(addr, enabled));
            let res = dir_res(after.ctrl[spec_ep_ctrl(addr.spec_index())], addr.spec_direction());
            let cut = after.cut[(addr.spec_index() as usize, addr.spec_direction())];
            &&& (res == RES_STALL) == !enabled
            &&& !cut
            &&& after.woken.contains(dir_waker(addr.spec_index(), addr.spec_direction()))
            &&& !enabled ==> read_outcome(cut, res, rx_len, buf_len) == Poll::Ready(
                Err::<usize, EndpointError>(EndpointError::Disabled),
            )
            &&& !enabled ==> write_outcome(len, max, cut, res) == Poll::Ready(
                Err::<(), EndpointError>(EndpointError::Disabled),
            )
            &&& enabled && addr.spec_direction() == Direction::In ==> write_outcome(
                len,
                max,
                cut,
                res,
            ) == Poll::Ready(Ok::<(), EndpointError>(()))
            &&& enabled && addr.spec_direction() == Direction::Out ==> read_outcome(
                cut,
                res,
                rx_len,
                buf_len,
            ) is Pending
        }),
{
    law_respond(hw, addr, RES_NAK, RES_ACK);
    law_respond(hw, addr, RES_STALL, RES_STALL);
}

/// Which event a look reports, case by case.
pub proof fn law_event_exact(inited: bool, irq: IrqFlags)
    ensures
        ({
            let event = bus_event(inited, irq);
            &&& event == Poll::Ready(Event::PowerDetected) <==> !inited
            &&& event == Poll::Ready(Event::Reset) <==> inited && irq.reset
            &&& event == Poll::Ready(Event::Resume) <==> inited && !irq.reset && irq.resume
            &&& event == Poll::Ready(Event::Suspend) <==> inited && !irq.reset && !irq.resume
                && irq.suspend
            &&& event is Pending <==> inited && !irq.reset && !irq.resume && !irq.suspend
        }),
{
}

/// Reporting a resume or a suspend takes away what is reported and does nothing else;
/// reporting power, and finding no event, does nothing.
pub proof fn law_event_effect(hw: Hardware, ep_count: int)
    ensures
        run(hw, event_ops(ep_count, Poll::Ready(Event::Resume))) == (Hardware {
            irq: IrqFlags { reset: hw.irq.reset, suspend: hw.irq.suspend, resume: false },
            ..hw
        }),
        run(hw, event_ops(ep_count, Poll::Ready(Event::Suspend))) == (Hardware {
            irq: IrqFlags { reset: hw.irq.reset, suspend: false, resume: hw.irq.resume },
            ..hw
        }),
        run(hw, event_ops(ep_count, Poll::Ready(Event::PowerDetected))) == hw,
        run(hw, event_ops(ep_count, Poll::Pending)) == hw,
{
    lemma_run_1(hw, HwOp::StoreIrq(IrqFlag::Resume, false));
    lemma_run_1(hw, HwOp::StoreIrq(IrqFlag::Suspend, false));
}

/// What reporting a bus reset does, endpoint by endpoint: afterwards the device has
/// address 0; endpoint 0 answers NAK to IN tokens and ACK to OUT tokens; each other
/// endpoint of the table but endpoint 4 answers NAK to both; all their toggles are at
/// DATA0; the other control registers are as before; every direction of every
/// endpoint of the table is cut and woken.
pub proof fn law_reset_event(hw: Hardware, ep_count: int)
    requires
        ep_count == 4 || ep_count == 8,
    ensures
        ({
            let after = run(hw, event_ops(ep_count, Poll::Ready(Event::Reset)));
            &&& after.dev_addr == 0
            &&& after.irq == IrqFlags {
                reset: false,
                suspend: hw.irq.suspend,
                resume: hw.irq.resume,
            }
            &&& forall|i: int|
                0 <= i < 8 ==> #[trigger] after.ctrl[ctrl_of(i)] == if i == 0 {
                    UepCtrl { t_tog: false, r_tog: false, t_res: 2, r_res: 0 }
                } else if i < ep_count && i != 4 {
                    UepCtrl { t_tog: false, r_tog: false, t_res: 2, r_res: 2 }
                } else {
                    hw.ctrl[ctrl_of(i)]
                }
            &&& forall|i: usize, dir: Direction| #[trigger]
                after.cut[(i, dir)] == (i < ep_count || hw.cut[(i, dir)])
            &&& forall|i: usize| #[trigger]
                after.woken.contains(WakerId::In(i)) == (i < ep_count || hw.woken.contains(
                    WakerId::In(i),
                ))
            &&& forall|i: usize| #[trigger]
                after.woken.contains(WakerId::Out(i)) == (i < ep_count || hw.woken.contains(
                    WakerId::Out(i),
                ))
            &&& after.woken.contains(WakerId::Bus) == hw.woken.contains(WakerId::Bus)
            &&& after == Hardware {
                dev_addr: 0,
                irq: after.irq,
                ctrl: after.ctrl,
                cut: after.cut,
                woken: after.woken,
                ..hw
            }
        }),
{
    let after = run(hw, reset_ops(ep_count));
    law_reset(hw, ep_count);
    assert forall|i: int| 0 <= i < 8 implies #[trigger] after.ctrl[ctrl_of(i)] == if i == 0 {
        UepCtrl { t_tog: false, r_tog: false, t_res: 2, r_res: 0 }
    } else if i < ep_count && i != 4 {
        UepCtrl { t_tog: false, r_tog: false, t_res: 2, r_res: 2 }
    } else {
        hw.ctrl[ctrl_of(i)]
    } by {
        assert(ctrl_of(i) == spec_ep_ctrl(i));
        if i >= ep_count || i == 4 {
            assert(!is_reset_reg(ep_count, spec_ep_ctrl(i)));
        }
    }
}

proof fn lemma_only_cut(hw: Hardware, ops: Seq<HwOp>)
    requires
        forall|i: int| 0 <= i < ops.len() ==> #[trigger] ops[i] is StoreCut,
    ensures
        ({
            let after = run(hw, ops);
            after == Hardware { cut: after.cut, ..hw }
        }),
    decreases ops.len(),
{
    if ops.len() > 0 {
        assert(ops[0] is StoreCut);
        lemma_only_cut(step(hw, ops[0]), ops.skip(1));
    }
}

proof fn lemma_only_ctrl(hw: Hardware, ops: Seq<HwOp>)
    requires
        forall|i: int|
            0 <= i < ops.len() ==> #[trigger] ops[i] is WriteCtrl || ops[i] is WriteDevAd,
    ensures
        ({
            let after = run(hw, ops);
            after == Hardware { ctrl: after.ctrl, dev_addr: after.dev_addr, ..hw }
        }),
    decreases ops.len(),
{
    if ops.len() > 0 {
        let next = step(hw, ops[0]);
        assert(next == Hardware { ctrl: next.ctrl, dev_addr: next.dev_addr, ..hw }) by {
            if ops[0] is WriteCtrl {
            } else {
                assert(ops[0] is WriteDevAd);
            }
        }
        lemma_only_ctrl(next, ops.skip(1));
    }
}

proof fn lemma_only_wake(hw: Hardware, ops: Seq<HwOp>)
    requires
        forall|i: int| 0 <= i < ops.len() ==> #[trigger] ops[i] is Wake,
    ensures
        ({
            let after = run(hw, ops);
            after == Hardware { woken: after.woken, ..hw }
        }),
    decreases ops.len(),
{
    if ops.len() > 0 {
        assert(ops[0] is Wake);
        lemma_only_wake(step(hw, ops[0]), ops.skip(1));
    }
}

proof fn lemma_cut_ops(n: int)
    ensures
        forall|i: int| 0 <= i < cut_ops(n).len() ==> #[trigger] cut_ops(n)[i] is StoreCut,
    decreases n,
{
    if n > 0 {
        lemma_cut_ops(n - 1);
    }
}

proof fn lemma_endpoints_reset_ops(n: int)
    ensures
        forall|i: int|
            0 <= i < endpoints_reset_ops(n).len() ==> #[trigger] endpoints_reset_ops(n)[i]
                is WriteCtrl,
    decreases n,
{
    if n > 1 {
        lemma_endpoints_reset_ops(n - 1);
    }
}

/// A bus reset may be interrupted anywhere, and what is seen then is in order: the
/// event is taken before anything is done for it, so that a reset that comes in
/// between is reported anew; where a register was already put back, all transfers
/// are noted as cut; where a task was already woken, everything is done but for
/// waking others.
pub proof fn law_reset_order(hw: Hardware, ep_count: int, k: int)
    requires
        0 <= k <= event_ops(ep_count, Poll::Ready(Event::Reset)).len(),
    ensures
        ({
            let ops = event_ops(ep_count, Poll::Ready(Event::Reset));
            let part = run(hw, ops.take(k));
            let after = run(hw, ops);
            &&& part != hw ==> !part.irq.reset
            &&& part.ctrl != hw.ctrl || part.dev_addr != hw.dev_addr ==> part.cut == after.cut
            &&& part.woken != hw.woken ==> part == Hardware { woken: part.woken, ..after }
        }),
{
    let ops = reset_ops(ep_count);
    let flag = seq![HwOp::StoreIrq(IrqFlag::Reset, false)];
    let cut = cut_ops(ep_count);
    let regs = seq![
        HwOp::WriteDevAd(0),
        HwOp::WriteCtrl(
            CtrlReg::Uep01234(0),
            UepCtrl { t_tog: false, r_tog: false, t_res: RES_NAK, r_res: RES_ACK },
        ),
    ] + endpoints_reset_ops(ep_count);
    let wake = wake_in_ops(ep_count) + wake_out_ops(ep_count);
    assert(ops =~= flag + cut + regs + wake);
    let h0 = run(hw, flag);
    let h1 = run(h0, cut);
    let h2 = run(h1, regs);
    let after = run(hw, ops);
    lemma_run_1(hw, flag[0]);
    lemma_run_add(hw, flag, cut);
    lemma_run_add(hw, flag + cut, regs);
    lemma_run_add(hw, flag + cut + regs, wake);
    lemma_cut_ops(ep_count);
    lemma_endpoints_reset_ops(ep_count);
    lemma_only_cut(h0, cut);
    lemma_only_ctrl(h1, regs);
    lemma_only_wake(h2, wake);
    if k == 0 {
        lemma_run_ends(hw, ops);
    } else if k <= 1 + cut.len() {
        assert(ops.take(k) =~= flag + cut.take(k - 1));
        lemma_run_add(hw, flag, cut.take(k - 1));
        lemma_only_cut(h0, cut.take(k - 1));
    } else if k <= 1 + cut.len() + regs.len() {
        let j = k - 1 - cut.len();
        assert(ops.take(k) =~= flag + cut + regs.take(j));
        lemma_run_add(hw, flag + cut, regs.take(j));
        lemma_only_ctrl(h1, regs.take(j));
    } else {
        let j = k - 1 - cut.len() - regs.len();
        assert(ops.take(k) =~= flag + cut + regs + wake.take(j));
        lemma_run_add(hw, flag + cut + regs, wake.take(j));
        lemma_only_wake(h2, wake.take(j));
    }
}

/// What enabling or disabling an endpoint does, by the bits of its address: the top
/// bit picks the direction and the rest is the number of the endpoint. Enabled, IN
/// answers NAK and OUT answers ACK; disabled, both answer STALL.
pub proof fn law_set_enabled_effect(hw: Hardware, addr: EndpointAddress, enabled: bool)
    requires
        addr.bits % 128 < 8,
    ensures
        ({
            let index = addr.bits as int % 128;
            let cur = hw.ctrl[ctrl_of(index)];
            let key = (index as usize, if addr.bits >= 128 {
                Direction::In
            } else {
                Direction::Out
            });
            run(hw, set_enabled_ops(addr, enabled)) == Hardware {
                ctrl: hw.ctrl.insert(
                    ctrl_of(index),
                    if addr.bits >= 128 {
                        UepCtrl {
                            t_tog: cur.t_tog,
                            r_tog: cur.r_tog,
                            t_res: if enabled {
                                2
                            } else {
                                3
                            },
                            r_res: cur.r_res,
                        }
                    } else {
                        UepCtrl {
                            t_tog: cur.t_tog,
                            r_tog: cur.r_tog,
                            t_res: cur.t_res,
                            r_res: if enabled {
                                0
                            } else {
                                3
                            },
                        }
                    },
                ),
                cut: hw.cut.insert(key, false),
                woken: hw.woken.insert(
                    if addr.bits >= 128 {
                        WakerId::In(index as usize)
                    } else {
                        WakerId::Out(index as usize)
                    },
                ),
                ..hw
            }
        }),
{
    law_address_bits(addr);
    law_respond(hw, addr, RES_NAK, RES_ACK);
    law_respond(hw, addr, RES_STALL, RES_STALL);
}

/// Stalling an endpoint does exactly what disabling it does, and ending the stall what
/// enabling it does.
pub proof fn law_set_stalled_effect(hw: Hardware, addr: EndpointAddress, stalled: bool)
    ensures
        run(hw, set_stalled_ops(addr, stalled)) == run(hw, set_enabled_ops(addr, !stalled)),
{
}

/// Enabling, disabling, stalling or ending a stall may be interrupted anywhere: where
/// the note of a reset is gone, the response is already in place; the task is woken
/// last.
pub proof fn law_respond_order(hw: Hardware, addr: EndpointAddress, enabled: bool, k: int)
    requires
        0 <= k <= set_enabled_ops(addr, enabled).len(),
    ensures
        ({
            let ops = set_enabled_ops(addr, enabled);
            let part = run(hw, ops.take(k));
            let after = run(hw, ops);
            &&& part.cut != hw.cut ==> part.ctrl == after.ctrl
            &&& part.woken != hw.woken ==> part == after
            &&& k < ops.len() ==> part.woken == hw.woken
        }),
{
    let ops = set_enabled_ops(addr, enabled);
    lemma_run_ends(hw, ops);
    lemma_run_take(hw, ops, 0);
    lemma_run_take(hw, ops, 1);
    lemma_run_take(hw, ops, 2);
}

/// An endpoint is stalled exactly if the response of the addressed direction is
/// STALL, whatever else its control register holds: one that answers, or makes the
/// host wait, is not.
pub proof fn law_stalled_exact(addr: EndpointAddress, ctrl: UepCtrl)
    ensures
        addr.bits >= 128 ==> (is_stalled(addr, ctrl) <==> ctrl.t_res == 3),
        addr.bits < 128 ==> (is_stalled(addr, ctrl) <==> ctrl.r_res == 3),
{
    law_address_bits(addr);
}

/// Data that moves is no stall: queueing a packet for the host, accepting the next
/// one, and what an IN or OUT transfer does when it completes leave every endpoint
/// that was not stalled as not stalled.
pub proof fn law_transfers_do_not_stall(
    hw: Hardware,
    addr: EndpointAddress,
    index: int,
    data: Seq<u8>,
    wrote: Poll<Result<(), EndpointError>>,
    read: Poll<Result<usize, EndpointError>>,
    ep_count: usize,
    status: InterruptStatus,
)
    requires
        addr.bits % 128 < 8,
        has_buffer(8, index),
        hw.dma[dma_of(index)] == spec_ep_buf(index),
        hw.buffers[hw.dma[dma_of(index)]].len() == 64,
        data.len() <= 64,
        !is_stalled(addr, hw.ctrl[ctrl_of(addr.bits as int % 128)]),
    ensures
        ({
            let reg = ctrl_of(addr.bits as int % 128);
            &&& !is_stalled(addr, run(hw, write_ops(index, data, wrote)).ctrl[reg])
            &&& !is_stalled(addr, run(hw, read_ops(index, read)).ctrl[reg])
            &&& !is_stalled(addr, run(hw, interrupt_ops(ep_count, status)).ctrl[reg])
        }),
{
    let reg = ctrl_of(addr.bits as int % 128);
    law_address_bits(addr);
    law_write_effect(hw, index, data, wrote);
    law_read_effect(hw, index, read);
    lemma_interrupt(hw, ep_count, status);
    lemma_transfer(hw, ep_count, status);
    law_setup(hw);
    law_in_complete(hw, status.endp as int);
    law_out_complete(hw, status.endp as int, status.rx_len);
}

/// The wait for an endpoint to be usable ends exactly when its transfers no longer
/// fail as disabled. It goes on after a bus reset and after the endpoint was disabled;
/// enabling the endpoint wakes the task and ends it.
pub proof fn law_wait_enabled(
    hw: Hardware,
    addr: EndpointAddress,
    ep_count: int,
    cut: bool,
    res: u8,
    rx_len: u16,
    buf_len: nat,
)
    requires
        ep_count == 4 || ep_count == 8,
        addr.bits % 128 < ep_count,
    ensures
        enabled_outcome(cut, res) is Pending <==> read_outcome(cut, res, rx_len, buf_len)
            == Poll::Ready(Err::<usize, EndpointError>(EndpointError::Disabled)),
        enabled_outcome(cut, res) is Ready <==> !cut && res != 3,
        ({
            let index = addr.bits as int % 128;
            let dir = addr.spec_direction();
            let key = (index as usize, dir);
            let reset = run(hw, event_ops(ep_count, Poll::Ready(Event::Reset)));
            let off = run(hw, set_enabled_ops(addr, false));
            let on = run(hw, set_enabled_ops(addr, true));
            &&& enabled_outcome(reset.cut[key], dir_res(reset.ctrl[ctrl_of(index)], dir)) is Pending
            &&& enabled_outcome(off.cut[key], dir_res(off.ctrl[ctrl_of(index)], dir)) is Pending
            &&& enabled_outcome(on.cut[key], dir_res(on.ctrl[ctrl_of(index)], dir)) is Ready
            &&& on.woken.contains(dir_waker(index, dir))
        }),
{
    law_address_bits(addr);
    law_reset_event(hw, ep_count);
    law_set_enabled_effect(hw, addr, true);
    law_set_enabled_effect(hw, addr, false);
}

} // verus!
