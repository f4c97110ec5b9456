//! What every operation of the driver keeps to.

use crate::bus::{
    cut_ops, endpoints_reset_ops, event_ops, reset_ops, set_enabled_ops, set_stalled_ops,
    wake_in_ops, wake_out_ops,
};
use crate::control::{
    data_in_ops, data_out_ops, reject_ops, set_address_ops, setup_step_ops, status_step,
    status_step_ops, ControlLook, Stage, Step,
};
use crate::driver::{
    alloc_wf, endpoint_start_ops, endpoints_start_ops, init_ops, start_ops, EndpointData,
    UsbVoltage,
};
use crate::endpoint::{queue_ops, read_ops, write_ops};
use crate::endpoints::{has_buffer, valid_ep_count};
use crate::interrupt::{interrupt_ops, suspend_ops, transfer_ops, InterruptStatus};
use crate::laws::startup::law_start;
use crate::model::{run, step, Hardware};
use crate::regs::{
    CtrlReg, DmaReg, EpBuf, HwOp, ModeReg, TLenReg, UepCtrl, WakerId, MAX_PACKET_SIZE, RES_ACK,
    RES_NAK, RES_STALL,
};
use crate::usb::{Direction, EndpointAddress, EndpointError, Event, Poll};
use vstd::prelude::*;

verus! {

/// The response codes that the driver uses.
pub open spec fn res_valid(res: u8) -> bool {
    res == RES_ACK || res == RES_NAK || res == RES_STALL
}

/// A control register with response codes that the driver uses.
pub open spec fn ctrl_valid(ctrl: UepCtrl) -> bool {
    res_valid(ctrl.t_res) && res_valid(ctrl.r_res)
}

/// The buffer exists with a table of `ep_count` endpoints.
pub open spec fn buf_exists(ep_count: int, buf: EpBuf) -> bool {
    buf == EpBuf::Buf5 || buf == EpBuf::Buf6 || buf == EpBuf::Buf7 ==> ep_count == 8
}

/// The operation names only registers, buffers, bytes, wakers and lengths that
/// exist with a table of `ep_count` endpoints, and gives only response codes that
/// the driver uses.
pub open spec fn op_in_bounds(ep_count: int, op: HwOp) -> bool {
    match op {
        HwOp::WriteCtrl(CtrlReg::Uep01234(n), v) => n < 5 && ctrl_valid(v),
        HwOp::WriteCtrl(CtrlReg::Uep567(n), v) => ep_count == 8 && n < 3 && ctrl_valid(v),
        HwOp::ModifyCtrl(reg, u) => {
            &&& match reg {
                CtrlReg::Uep01234(n) => n < 5,
                CtrlReg::Uep567(n) => ep_count == 8 && n < 3,
            }
            &&& u.t_res matches Some(res) ==> res_valid(res)
            &&& u.r_res matches Some(res) ==> res_valid(res)
        },
        HwOp::WriteTLen(TLenReg::Uep01234(n), len) => n < 5 && len <= MAX_PACKET_SIZE,
        HwOp::WriteTLen(TLenReg::Uep567(n), len) => ep_count == 8 && n < 3 && len
            <= MAX_PACKET_SIZE,
        HwOp::WriteDma(DmaReg::Uep0123(n), buf) => n < 4 && buf_exists(ep_count, buf),
        HwOp::WriteDma(DmaReg::Uep567(n), buf) => ep_count == 8 && n < 3,
        HwOp::ModifyMode { reg: ModeReg::Uep567, n, .. } => ep_count == 8 && n < 3,
        HwOp::ModifyMode { n, .. } => n < 2,
        HwOp::StoreByte { buf, offset, .. } => buf_exists(ep_count, buf) && offset
            < MAX_PACKET_SIZE,
        HwOp::StoreOutLen { index, .. } => index < ep_count,
        HwOp::StoreCut { index, .. } => index < ep_count,
        HwOp::Wake(WakerId::In(index)) => index < ep_count,
        HwOp::Wake(WakerId::Out(index)) => index < ep_count,
        _ => true,
    }
}

/// All operations keep to the bounds.
pub open spec fn in_bounds(ep_count: int, ops: Seq<HwOp>) -> bool {
    forall|i: int| 0 <= i < ops.len() ==> op_in_bounds(ep_count, #[trigger] ops[i])
}

proof fn lemma_endpoints_start_in_bounds(ep_count: usize, alloc: Seq<EndpointData>, n: int)
    requires
        alloc_wf(alloc),
        alloc.len() == ep_count,
        1 <= n <= ep_count,
    ensures
        in_bounds(ep_count as int, endpoints_start_ops(alloc, n)),
    decreases n,
{
    if n > 1 {
        lemma_endpoints_start_in_bounds(ep_count, alloc, n - 1);
        assert(in_bounds(ep_count as int, endpoint_start_ops(n - 1, alloc[n - 1])));
    }
}

proof fn lemma_endpoints_reset_in_bounds(ep_count: usize, n: int)
    requires
        valid_ep_count(ep_count),
        1 <= n <= ep_count,
    ensures
        in_bounds(ep_count as int, endpoints_reset_ops(n)),
    decreases n,
{
    if n > 1 {
        lemma_endpoints_reset_in_bounds(ep_count, n - 1);
    }
}

proof fn lemma_cut_in_bounds(ep_count: usize, n: int)
    requires
        n <= ep_count,
    ensures
        in_bounds(ep_count as int, cut_ops(n)),
    decreases n,
{
    if n > 0 {
        lemma_cut_in_bounds(ep_count, n - 1);
    }
}

/// Bringing the peripheral up and starting it keep to the bounds.
pub proof fn law_start_in_bounds(ep_count: usize, vdd: UsbVoltage, alloc: Seq<EndpointData>)
    requires
        alloc_wf(alloc),
        alloc.len() == ep_count,
    ensures
        in_bounds(ep_count as int, init_ops(vdd)),
        in_bounds(ep_count as int, start_ops(alloc)),
{
    lemma_endpoints_start_in_bounds(ep_count, alloc, ep_count as int);
}

/// The interrupt handler keeps to the bounds, whatever it reads from the hardware.
pub proof fn law_interrupt_in_bounds(ep_count: usize, status: InterruptStatus, suspended: bool)
    requires
        valid_ep_count(ep_count),
    ensures
        in_bounds(ep_count as int, interrupt_ops(ep_count, status)),
        in_bounds(ep_count as int, suspend_ops(suspended)),
{
    assert(in_bounds(ep_count as int, transfer_ops(ep_count, status)));
}

/// The bus keeps to the bounds, for every event and every endpoint of the table.
pub proof fn law_bus_in_bounds(
    ep_count: usize,
    event: Poll<Event>,
    addr: EndpointAddress,
    value: bool,
)
    requires
        valid_ep_count(ep_count),
        addr.spec_index() < ep_count,
    ensures
        in_bounds(ep_count as int, event_ops(ep_count as int, event)),
        in_bounds(ep_count as int, set_enabled_ops(addr, value)),
        in_bounds(ep_count as int, set_stalled_ops(addr, value)),
{
    lemma_endpoints_reset_in_bounds(ep_count, ep_count as int);
    lemma_cut_in_bounds(ep_count, ep_count as int);
    assert(in_bounds(ep_count as int, wake_in_ops(ep_count as int)));
    assert(in_bounds(ep_count as int, wake_out_ops(ep_count as int)));
    assert(in_bounds(ep_count as int, reset_ops(ep_count as int)));
}

/// Transfers keep to the bounds; in particular no byte is stored outside the
/// buffer of the endpoint.
pub proof fn law_transfer_in_bounds(
    ep_count: usize,
    index: int,
    data: Seq<u8>,
    wrote: Poll<Result<(), EndpointError>>,
    read: Poll<Result<usize, EndpointError>>,
)
    requires
        valid_ep_count(ep_count),
        has_buffer(ep_count, index),
        data.len() <= MAX_PACKET_SIZE,
    ensures
        in_bounds(ep_count as int, write_ops(index, data, wrote)),
        in_bounds(ep_count as int, read_ops(index, read)),
{
    assert(in_bounds(ep_count as int, queue_ops(index, data)));
}

/// Control transfers keep to the bounds, in every stage and whatever a look sees.
pub proof fn law_control_in_bounds(
    ep_count: usize,
    stage: Stage,
    look: ControlLook,
    data: Seq<u8>,
    last: bool,
    max: u16,
    addr: u8,
)
    requires
        valid_ep_count(ep_count),
        data.len() <= MAX_PACKET_SIZE,
    ensures
        in_bounds(ep_count as int, setup_step_ops(stage, look)),
        in_bounds(ep_count as int, data_out_ops(stage, look)),
        in_bounds(ep_count as int, data_in_ops(stage, look, data, last, max)),
        in_bounds(ep_count as int, status_step_ops(stage, look)),
        in_bounds(ep_count as int, set_address_ops(stage, look, addr)),
        in_bounds(ep_count as int, reject_ops()),
{
    assert(in_bounds(ep_count as int, queue_ops(0, data)));
}

/// Operations that keep to the bounds keep the response codes of all endpoints
/// among those that the driver uses, so that a wait always sees one of them.
pub proof fn law_responses_stay_valid(hw: Hardware, ep_count: int, ops: Seq<HwOp>)
    requires
        in_bounds(ep_count, ops),
        forall|reg: CtrlReg| ctrl_valid(#[trigger] hw.ctrl[reg]),
    ensures
        forall|reg: CtrlReg| ctrl_valid(#[trigger] run(hw, ops).ctrl[reg]),
    decreases ops.len(),
{
    if ops.len() > 0 {
        let next = step(hw, ops[0]);
        assert(op_in_bounds(ep_count, ops[0]));
        assert forall|reg: CtrlReg| ctrl_valid(#[trigger] next.ctrl[reg]) by {
            assert(ctrl_valid(hw.ctrl[reg]));
        }
        assert forall|i: int| 0 <= i < ops.skip(1).len() implies op_in_bounds(
            ep_count,
            #[trigger] ops.skip(1)[i],
        ) by {
            assert(op_in_bounds(ep_count, ops[i + 1]));
        }
        law_responses_stay_valid(next, ep_count, ops.skip(1));
        assert(run(hw, ops) == run(next, ops.skip(1)));
    } else {
        assert(run(hw, ops) == hw);
    }
}

/// The operation leaves the device address.
pub open spec fn op_keeps_address(op: HwOp) -> bool {
    !(op is WriteDevAd) && !(op is ModifyDevAd) && !(op is EnableAndReset)
}

proof fn lemma_keeps_address(hw: Hardware, ops: Seq<HwOp>)
    requires
        forall|i: int| 0 <= i < ops.len() ==> op_keeps_address(#[trigger] ops[i]),
    ensures
        run(hw, ops).dev_addr == hw.dev_addr,
    decreases ops.len(),
{
    if ops.len() > 0 {
        assert(op_keeps_address(ops[0]));
        assert forall|i: int| 0 <= i < ops.skip(1).len() implies op_keeps_address(
            #[trigger] ops.skip(1)[i],
        ) by {
            assert(op_keeps_address(ops[i + 1]));
        }
        lemma_keeps_address(step(hw, ops[0]), ops.skip(1));
    }
}

/// Nothing but bringing the peripheral up, a bus reset and the end of SET_ADDRESS
/// changes the device address.
pub proof fn law_address_kept(
    hw: Hardware,
    ep_count: usize,
    alloc: Seq<EndpointData>,
    status: InterruptStatus,
    event: Poll<Event>,
    addr: EndpointAddress,
    value: bool,
    index: int,
    data: Seq<u8>,
    wrote: Poll<Result<(), EndpointError>>,
    read: Poll<Result<usize, EndpointError>>,
    stage: Stage,
    look: ControlLook,
    max: u16,
    new_addr: u8,
)
    requires
        alloc_wf(alloc),
        event != Poll::Ready(Event::Reset),
        status_step(stage, look) != Step::Done(true),
    ensures
        run(hw, start_ops(alloc)).dev_addr == hw.dev_addr,
        run(hw, interrupt_ops(ep_count, status)).dev_addr == hw.dev_addr,
        run(hw, suspend_ops(value)).dev_addr == hw.dev_addr,
        run(hw, event_ops(ep_count as int, event)).dev_addr == hw.dev_addr,
        run(hw, set_enabled_ops(addr, value)).dev_addr == hw.dev_addr,
        run(hw, set_stalled_ops(addr, value)).dev_addr == hw.dev_addr,
        run(hw, write_ops(index, data, wrote)).dev_addr == hw.dev_addr,
        run(hw, read_ops(index, read)).dev_addr == hw.dev_addr,
        run(hw, setup_step_ops(stage, look)).dev_addr == hw.dev_addr,
        run(hw, data_out_ops(stage, look)).dev_addr == hw.dev_addr,
        run(hw, data_in_ops(stage, look, data, value, max)).dev_addr == hw.dev_addr,
        run(hw, status_step_ops(stage, look)).dev_addr == hw.dev_addr,
        run(hw, set_address_ops(stage, look, new_addr)).dev_addr == hw.dev_addr,
        run(hw, reject_ops()).dev_addr == hw.dev_addr,
{
    law_start(hw, alloc.len() as usize, alloc);
    lemma_keeps_address(hw, interrupt_ops(ep_count, status));
    lemma_keeps_address(hw, suspend_ops(value));
    lemma_keeps_address(hw, event_ops(ep_count as int, event));
    lemma_keeps_address(hw, set_enabled_ops(addr, value));
    lemma_keeps_address(hw, set_stalled_ops(addr, value));
    lemma_keeps_address(hw, write_ops(index, data, wrote));
    lemma_keeps_address(hw, read_ops(index, read));
    lemma_keeps_address(hw, setup_step_ops(stage, look));
    lemma_keeps_address(hw, data_out_ops(stage, look));
    lemma_keeps_address(hw, data_in_ops(stage, look, data, value, max));
    lemma_keeps_address(hw, status_step_ops(stage, look));
    lemma_keeps_address(hw, set_address_ops(stage, look, new_addr));
    lemma_keeps_address(hw, reject_ops());
}

/// The operation takes no note of a reset away.
pub open spec fn op_keeps_cut(op: HwOp) -> bool {
    op is StoreCut ==> op->StoreCut_value
}

/// No operation takes a note of a reset away.
pub open spec fn keeps_cut(ops: Seq<HwOp>) -> bool {
    forall|i: int| 0 <= i < ops.len() ==> op_keeps_cut(#[trigger] ops[i])
}

proof fn lemma_keeps_cut(hw: Hardware, ops: Seq<HwOp>, key: (usize, Direction))
    requires
        keeps_cut(ops),
        hw.cut[key],
    ensures
        run(hw, ops).cut[key],
    decreases ops.len(),
{
    if ops.len() > 0 {
        assert(op_keeps_cut(ops[0]));
        assert forall|i: int| 0 <= i < ops.skip(1).len() implies op_keeps_cut(
            #[trigger] ops.skip(1)[i],
        ) by {
            assert(op_keeps_cut(ops[i + 1]));
        }
        lemma_keeps_cut(step(hw, ops[0]), ops.skip(1), key);
    }
}

proof fn lemma_reset_keeps_cut(n: int)
    ensures
        keeps_cut(endpoints_reset_ops(n)),
        keeps_cut(cut_ops(n)),
    decreases n,
{
    if n > 0 {
        lemma_reset_keeps_cut(n - 1);
    }
}

/// That a reset has cut the transfers of an endpoint stays noted until the endpoint
/// is enabled, disabled, stalled or unstalled, the driver is started anew, or, for
/// endpoint 0, the next SETUP packet is picked up: interrupts, bus events, and transfers that are tried
/// meanwhile leave the note.
pub proof fn law_cut_stays_noted(
    hw: Hardware,
    ep_count: usize,
    key: (usize, Direction),
    status: InterruptStatus,
    event: Poll<Event>,
    suspended: bool,
    index: int,
    data: Seq<u8>,
    wrote: Poll<Result<(), EndpointError>>,
    read: Poll<Result<usize, EndpointError>>,
    stage: Stage,
    look: ControlLook,
    last: bool,
    max: u16,
    addr: u8,
)
    requires
        hw.cut[key],
    ensures
        run(hw, interrupt_ops(ep_count, status)).cut[key],
        run(hw, suspend_ops(suspended)).cut[key],
        run(hw, event_ops(ep_count as int, event)).cut[key],
        run(hw, write_ops(index, data, wrote)).cut[key],
        run(hw, read_ops(index, read)).cut[key],
        run(hw, data_out_ops(stage, look)).cut[key],
        run(hw, data_in_ops(stage, look, data, last, max)).cut[key],
        run(hw, status_step_ops(stage, look)).cut[key],
        run(hw, set_address_ops(stage, look, addr)).cut[key],
        run(hw, reject_ops()).cut[key],
{
    lemma_reset_keeps_cut(ep_count as int);
    assert(keeps_cut(reset_ops(ep_count as int)));
    lemma_keeps_cut(hw, interrupt_ops(ep_count, status), key);
    lemma_keeps_cut(hw, suspend_ops(suspended), key);
    lemma_keeps_cut(hw, event_ops(ep_count as int, event), key);
    lemma_keeps_cut(hw, write_ops(index, data, wrote), key);
    lemma_keeps_cut(hw, read_ops(index, read), key);
    lemma_keeps_cut(hw, data_out_ops(stage, look), key);
    lemma_keeps_cut(hw, data_in_ops(stage, look, data, last, max), key);
    lemma_keeps_cut(hw, status_step_ops(stage, look), key);
    lemma_keeps_cut(hw, set_address_ops(stage, look, addr), key);
    lemma_keeps_cut(hw, reject_ops(), key);
}

} // verus!
