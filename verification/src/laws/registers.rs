//! Where the hardware keeps what, number by number, and what the codes mean.

use crate::endpoint::{dir_res, dir_waker};
use crate::endpoints::{
    has_buffer, has_ctrl, mode_op, mode_slot, spec_ep_buf, spec_ep_ctrl, spec_ep_dma, spec_ep_t_len,
    store_ops, valid_ep_count,
};
use crate::interrupt::{TOKEN_IN, TOKEN_OUT, TOKEN_SETUP};
use crate::model::{
    ctrl_of, dma_of, lemma_run_1, lemma_run_store, mode_of, run, t_len_of, Hardware,
};
use crate::regs::{
    CtrlReg, CtrlUpdate, DmaReg, EpBuf, ModeReg, TLenReg, UepCtrl, WakerId, MAX_PACKET_SIZE,
    RES_ACK, RES_NAK, RES_STALL,
};
use crate::usb::Direction;
use vstd::prelude::*;

verus! {

/// The codes are those of the hardware, and packets are those of full speed.
pub proof fn law_codes()
    ensures
        RES_ACK == 0,
        RES_NAK == 2,
        RES_STALL == 3,
        TOKEN_OUT == 0,
        TOKEN_IN == 2,
        TOKEN_SETUP == 3,
        MAX_PACKET_SIZE == 64,
{
}

/// The control register of endpoint `i` is register `i` of the first group up to
/// endpoint 4, and register `i - 5` of the second from endpoint 5 on. So are the
/// length registers.
pub proof fn law_ctrl_and_length_registers()
    ensures
        spec_ep_ctrl(0) == CtrlReg::Uep01234(0),
        spec_ep_ctrl(1) == CtrlReg::Uep01234(1),
        spec_ep_ctrl(2) == CtrlReg::Uep01234(2),
        spec_ep_ctrl(3) == CtrlReg::Uep01234(3),
        spec_ep_ctrl(4) == CtrlReg::Uep01234(4),
        spec_ep_ctrl(5) == CtrlReg::Uep567(0),
        spec_ep_ctrl(6) == CtrlReg::Uep567(1),
        spec_ep_ctrl(7) == CtrlReg::Uep567(2),
        spec_ep_t_len(0) == TLenReg::Uep01234(0),
        spec_ep_t_len(1) == TLenReg::Uep01234(1),
        spec_ep_t_len(2) == TLenReg::Uep01234(2),
        spec_ep_t_len(3) == TLenReg::Uep01234(3),
        spec_ep_t_len(4) == TLenReg::Uep01234(4),
        spec_ep_t_len(5) == TLenReg::Uep567(0),
        spec_ep_t_len(6) == TLenReg::Uep567(1),
        spec_ep_t_len(7) == TLenReg::Uep567(2),
{
}

/// The DMA register of endpoint `i` is register `i` of the first group up to
/// endpoint 3, and register `i - 5` of the second from endpoint 5 on; its buffer is
/// the one of its number.
pub proof fn law_dma_registers_and_buffers()
    ensures
        spec_ep_dma(0) == DmaReg::Uep0123(0),
        spec_ep_dma(1) == DmaReg::Uep0123(1),
        spec_ep_dma(2) == DmaReg::Uep0123(2),
        spec_ep_dma(3) == DmaReg::Uep0123(3),
        spec_ep_dma(5) == DmaReg::Uep567(0),
        spec_ep_dma(6) == DmaReg::Uep567(1),
        spec_ep_dma(7) == DmaReg::Uep567(2),
        spec_ep_buf(0) == EpBuf::Buf0,
        spec_ep_buf(1) == EpBuf::Buf1,
        spec_ep_buf(2) == EpBuf::Buf2,
        spec_ep_buf(3) == EpBuf::Buf3,
        spec_ep_buf(5) == EpBuf::Buf5,
        spec_ep_buf(6) == EpBuf::Buf6,
        spec_ep_buf(7) == EpBuf::Buf7,
{
}

/// The mode bits of endpoint 1 are in the second place of the register that it
/// shares with endpoint 4, those of endpoints 2 and 3 in the two places of theirs,
/// those of endpoints 5 to 7 in the three places of theirs.
pub proof fn law_mode_registers()
    ensures
        mode_slot(1) == (ModeReg::Uep4_1, 1usize),
        mode_slot(2) == (ModeReg::Uep2_3, 0usize),
        mode_slot(3) == (ModeReg::Uep2_3, 1usize),
        mode_slot(5) == (ModeReg::Uep567, 0usize),
        mode_slot(6) == (ModeReg::Uep567, 1usize),
        mode_slot(7) == (ModeReg::Uep567, 2usize),
{
}

/// The driver addresses the registers that the hardware consults.
pub proof fn law_driver_uses_the_endpoints_registers(i: int)
    requires
        0 <= i < 8,
    ensures
        spec_ep_ctrl(i) == ctrl_of(i),
        spec_ep_t_len(i) == t_len_of(i),
        i != 4 ==> spec_ep_dma(i) == dma_of(i),
        i != 0 && i != 4 ==> mode_slot(i) == mode_of(i),
{
}

/// Turning on directions of an endpoint sets the bits asked for, clears none, and
/// touches no other endpoint's.
pub proof fn law_mode_enable(hw: Hardware, i: int, used_in: bool, used_out: bool)
    requires
        1 <= i < 8,
        i != 4,
    ensures
        ({
            let after = run(hw, seq![mode_op(i, used_in, used_out)]);
            &&& after.tx_en[mode_of(i)] == (hw.tx_en[mode_of(i)] || used_in)
            &&& after.rx_en[mode_of(i)] == (hw.rx_en[mode_of(i)] || used_out)
            &&& forall|slot: (ModeReg, usize)|
                slot != mode_of(i) ==> #[trigger] after.tx_en[slot] == hw.tx_en[slot]
            &&& forall|slot: (ModeReg, usize)|
                slot != mode_of(i) ==> #[trigger] after.rx_en[slot] == hw.rx_en[slot]
            &&& after == Hardware { tx_en: after.tx_en, rx_en: after.rx_en, ..hw }
        }),
{
    lemma_run_1(hw, mode_op(i, used_in, used_out));
}

/// Storing data makes it the first bytes of the buffer; the bytes behind it, and
/// everything else, stay.
pub proof fn law_store(hw: Hardware, buf: EpBuf, data: Seq<u8>)
    requires
        hw.buffers[buf].len() == 64,
        data.len() <= 64,
    ensures
        ({
            let after = run(hw, store_ops(buf, data));
            &&& after.buffers[buf].len() == 64
            &&& forall|k: int|
                0 <= k < 64 ==> #[trigger] after.buffers[buf][k] == if k < data.len() {
                    data[k]
                } else {
                    hw.buffers[buf][k]
                }
            &&& forall|b: EpBuf| b != buf ==> #[trigger] after.buffers[b] == hw.buffers[b]
            &&& after == Hardware { buffers: after.buffers, ..hw }
        }),
{
    lemma_run_store(hw, buf, data);
}

/// The small table backs endpoints 0 to 3, the large one all but endpoint 4, which
/// has a control register but no buffer.
pub proof fn law_supported_endpoints(i: int)
    ensures
        has_buffer(4, i) <==> i == 0 || i == 1 || i == 2 || i == 3,
        has_buffer(8, i) <==> i == 0 || i == 1 || i == 2 || i == 3 || i == 5 || i == 6 || i == 7,
        has_ctrl(4, i) <==> i == 0 || i == 1 || i == 2 || i == 3 || i == 4,
        has_ctrl(8, i) <==> 0 <= i <= 7,
        forall|n: usize| valid_ep_count(n) <==> n == 4 || n == 8,
{
}

/// An update flips the toggles it names and replaces the response codes it gives;
/// the rest of the register stays. Applied twice, flips cancel out.
pub proof fn law_ctrl_update(update: CtrlUpdate, cur: UepCtrl)
    ensures
        ({
            let next = update.spec_apply(cur);
            &&& next.t_tog != cur.t_tog <==> update.flip_t_tog
            &&& next.r_tog != cur.r_tog <==> update.flip_r_tog
            &&& update.t_res is None ==> next.t_res == cur.t_res
            &&& update.r_res is None ==> next.r_res == cur.r_res
            &&& update.t_res matches Some(res) ==> next.t_res == res
            &&& update.r_res matches Some(res) ==> next.r_res == res
            &&& update.spec_apply(next).t_tog == cur.t_tog
            &&& update.spec_apply(next).r_tog == cur.r_tog
        }),
{
}

/// Giving one response code leaves the other one and both toggles.
pub proof fn law_ctrl_set(cur: UepCtrl, res: u8)
    ensures
        ({
            let t = CtrlUpdate::spec_set_t_res(res).spec_apply(cur);
            &&& t.t_res == res
            &&& t.r_res == cur.r_res
            &&& t.t_tog == cur.t_tog
            &&& t.r_tog == cur.r_tog
        }),
        ({
            let r = CtrlUpdate::spec_set_r_res(res).spec_apply(cur);
            &&& r.r_res == res
            &&& r.t_res == cur.t_res
            &&& r.t_tog == cur.t_tog
            &&& r.r_tog == cur.r_tog
        }),
{
}

/// A direction has its own response code and its own waker.
pub proof fn law_directions(ctrl: UepCtrl, index: usize)
    ensures
        dir_res(ctrl, Direction::In) == ctrl.t_res,
        dir_res(ctrl, Direction::Out) == ctrl.r_res,
        dir_waker(index as int, Direction::In) == WakerId::In(index),
        dir_waker(index as int, Direction::Out) == WakerId::Out(index),
{
}

} // verus!
