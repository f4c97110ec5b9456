//! Control transfers.

use crate::control::{
    control_wait, data_in_next, data_in_ops, data_in_step, data_out_next, data_out_ops,
    data_out_step, receive_ops, reject_ops, set_address_ops, setup_next, setup_step, setup_step_ops,
    status_next, status_ops, status_step, ControlLook, Stage, Step,
};
use crate::endpoint::queue_ops;
use crate::endpoints::{spec_ep_buf, spec_ep_ctrl, spec_ep_t_len};
use crate::interrupt::{in_ops, out_ops, setup_ops};
use crate::laws::interrupts::{law_in_complete, law_out_complete, law_setup};
use crate::laws::transfers::{law_queue, packet_to_host};
use crate::model::{lemma_run_1, lemma_run_2, lemma_run_3, run, Hardware};
use crate::regs::{
    CtrlReg, CtrlUpdate, HwOp, TLenReg, UepCtrl, MAX_PACKET_SIZE, RES_ACK, RES_NAK, RES_STALL,
};
use crate::usb::{Direction, EndpointError, Poll};
use vstd::prelude::*;

verus! {

/// What a look at endpoint 0 sees.
pub open spec fn look(hw: Hardware) -> ControlLook {
    ControlLook {
        ctrl: hw.ctrl[spec_ep_ctrl(0)],
        setup: hw.setup,
        cut_in: hw.cut[(0, Direction::In)],
        cut_out: hw.cut[(0, Direction::Out)],
        out_len: hw.out_len[0],
    }
}

/// The status stage answers with an empty packet and changes nothing else.
pub proof fn law_status(hw: Hardware)
    ensures
        run(hw, status_ops()) == (Hardware {
            t_len: hw.t_len.insert(spec_ep_t_len(0), 0),
            ctrl: hw.ctrl.insert(
                spec_ep_ctrl(0),
                UepCtrl { t_res: RES_ACK, ..hw.ctrl[spec_ep_ctrl(0)] },
            ),
            ..hw
        }),
{
    lemma_run_2(
        hw,
        HwOp::WriteTLen(TLenReg::Uep01234(0), 0),
        HwOp::ModifyCtrl(CtrlReg::Uep01234(0), CtrlUpdate::spec_set_t_res(RES_ACK)),
    );
}

/// How the first wait that ends among `looks` ends: cut short by a SETUP packet or a
/// bus reset (`true`) or complete (`false`).
pub open spec fn first_end(looks: Seq<ControlLook>) -> Option<bool>
    decreases looks.len(),
{
    if looks.len() == 0 {
        None
    } else if looks[0].cut_in {
        Some(true)
    } else {
        match control_wait(looks[0].setup, looks[0].ctrl.t_res) {
            Poll::Ready(cut) => Some(cut),
            Poll::Pending => first_end(looks.skip(1)),
        }
    }
}

/// All that SET_ADDRESS asks for, carried on from `stage` with the given looks.
pub open spec fn set_address_trace(stage: Stage, looks: Seq<ControlLook>, addr: u8) -> Seq<HwOp>
    decreases looks.len(),
{
    if looks.len() == 0 {
        Seq::empty()
    } else if status_step(stage, looks[0]) is Done {
        set_address_ops(stage, looks[0], addr)
    } else {
        set_address_ops(stage, looks[0], addr) + set_address_trace(
            status_next(stage, looks[0]),
            looks.skip(1),
            addr,
        )
    }
}

proof fn lemma_set_address_waiting(looks: Seq<ControlLook>, addr: u8)
    ensures
        set_address_trace(Stage::Waiting, looks, addr) == if first_end(looks) == Some(false) {
            seq![HwOp::ModifyDevAd(addr)]
        } else {
            Seq::empty()
        },
    decreases looks.len(),
{
    if looks.len() > 0 {
        lemma_set_address_waiting(looks.skip(1), addr);
    }
}

/// Whatever a sequence of looks sees, SET_ADDRESS first answers with the empty
/// packet, and then changes the address exactly if the first thing that ends the
/// wait is the completion of the status stage. While it waits, and when a SETUP
/// packet or a bus reset comes first, the address is not touched. After a reset that
/// came before it began, it does nothing.
pub proof fn law_address_changes_after_status(looks: Seq<ControlLook>, addr: u8)
    requires
        looks.len() > 0,
    ensures
        set_address_trace(Stage::Start, looks, addr) == if looks[0].cut_in {
            Seq::empty()
        } else {
            status_ops() + if first_end(looks.skip(1)) == Some(false) {
                seq![HwOp::ModifyDevAd(addr)]
            } else {
                Seq::empty()
            }
        },
{
    lemma_set_address_waiting(looks.skip(1), addr);
}

/// SET_ADDRESS on the hardware: the status stage alone leaves the address; if the
/// host fetches the empty packet, the device answers to `addr` from then on; if the
/// host starts over with a SETUP packet instead, it keeps its address.
pub proof fn law_set_address(hw: Hardware, addr: u8)
    requires
        !hw.setup,
        !hw.cut[(0, Direction::In)],
    ensures
        ({
            let zlp = run(hw, set_address_ops(Stage::Start, look(hw), addr));
            let sent = run(zlp, in_ops(0));
            let cut = run(zlp, setup_ops());
            &&& zlp.dev_addr == hw.dev_addr
            &&& status_step(Stage::Waiting, look(zlp)) is Wait
            &&& sent.dev_addr == hw.dev_addr
            &&& status_step(Stage::Waiting, look(sent)) == Step::Done(true)
            &&& run(sent, set_address_ops(Stage::Waiting, look(sent), addr)) == Hardware {
                dev_addr: addr,
                ..sent
            }
            &&& status_step(Stage::Waiting, look(cut)) == Step::Done(false)
            &&& run(cut, set_address_ops(Stage::Waiting, look(cut), addr)) == cut
            &&& cut.dev_addr == hw.dev_addr
        }),
{
    let zlp = run(hw, status_ops());
    law_status(hw);
    law_in_complete(zlp, 0);
    law_setup(zlp);
    lemma_run_1(run(zlp, in_ops(0)), HwOp::ModifyDevAd(addr));
}

/// A SETUP packet ends every wait of a control transfer at once, and the transfer
/// fails as disabled. Both directions make the host wait for the new request.
pub proof fn law_setup_cuts_transfer(hw: Hardware, buf_len: nat, len: nat, max: u16)
    ensures
        ({
            let cut = look(run(hw, setup_ops()));
            &&& data_out_step(Stage::Waiting, cut, buf_len) == if cut.cut_out {
                Step::Done(Err::<usize, EndpointError>(EndpointError::Disabled))
            } else {
                Step::Again
            }
            &&& data_out_step(Stage::Ending, cut, buf_len) == Step::Done(
                Err::<usize, EndpointError>(EndpointError::Disabled),
            )
            &&& data_in_step(Stage::Waiting, cut, len, max) == if cut.cut_in {
                Step::Done(Err::<(), EndpointError>(EndpointError::Disabled))
            } else {
                Step::Again
            }
            &&& data_in_step(Stage::Ending, cut, len, max) == Step::Done(
                Err::<(), EndpointError>(EndpointError::Disabled),
            )
            &&& status_step(Stage::Waiting, cut) == Step::Done(false)
            &&& cut.ctrl.t_res == RES_NAK
            &&& cut.ctrl.r_res == RES_NAK
        }),
{
    law_setup(hw);
}

/// A SETUP packet is picked up once and handed over: a look that sees it takes the
/// note of it away, and that of a bus reset before it, since a new transfer begins,
/// and changes nothing else; the next step hands over what the buffer holds by then.
/// Without a packet nothing happens.
pub proof fn law_setup_picked_up_once(hw: Hardware, stage: Stage, later: Hardware, packet: Seq<u8>)
    requires
        stage != Stage::Ending,
    ensures
        run(hw, setup_step_ops(stage, look(hw))) == if hw.setup {
            Hardware {
                setup: false,
                cut: hw.cut.insert((0, Direction::In), false).insert((0, Direction::Out), false),
                ..hw
            }
        } else {
            hw
        },
        hw.setup ==> setup_next(stage, look(hw)) == Stage::Ending,
        !hw.setup ==> setup_step(stage, look(hw), packet) is Wait && setup_next(stage, look(hw))
            == stage,
        setup_step(Stage::Ending, look(later), packet) == Step::Done(packet),
        run(later, setup_step_ops(Stage::Ending, look(later))) == later,
{
    lemma_run_3(
        hw,
        HwOp::StoreSetup(false),
        HwOp::StoreCut { index: 0, dir: Direction::In, value: false },
        HwOp::StoreCut { index: 0, dir: Direction::Out, value: false },
    );
}

/// A SETUP packet that arrives after the one before was picked up, but before it
/// was taken, is not lost: it is still noted afterwards.
pub proof fn law_setup_not_lost(hw: Hardware)
    requires
        hw.setup,
    ensures
        ({
            let picked = run(hw, setup_step_ops(Stage::Start, look(hw)));
            let again = run(picked, setup_ops());
            let taken = run(again, setup_step_ops(Stage::Ending, look(again)));
            taken.setup
        }),
{
    let picked = run(hw, setup_step_ops(Stage::Start, look(hw)));
    law_setup(picked);
}

/// Letting an OUT packet in changes that response and nothing else.
pub proof fn law_receive(hw: Hardware)
    ensures
        run(hw, receive_ops()) == (Hardware {
            ctrl: hw.ctrl.insert(
                spec_ep_ctrl(0),
                UepCtrl { r_res: RES_ACK, ..hw.ctrl[spec_ep_ctrl(0)] },
            ),
            ..hw
        }),
{
    lemma_run_1(
        hw,
        HwOp::ModifyCtrl(CtrlReg::Uep01234(0), CtrlUpdate::spec_set_r_res(RES_ACK)),
    );
}

/// An OUT data stage gives back what the host sent: it lets the packet in and
/// waits; once the packet `data` is in the buffer and its transfer complete, it
/// ends with the length and the bytes of the packet, and leaves the rest of the
/// caller's buffer.
pub proof fn law_data_out(hw: Hardware, data: Seq<u8>, mem: Seq<u8>, buf: Seq<u8>)
    requires
        !hw.setup,
        !hw.cut[(0, Direction::Out)],
        mem.len() == MAX_PACKET_SIZE,
        data.len() <= MAX_PACKET_SIZE,
        data.is_prefix_of(mem),
        data.len() <= buf.len(),
    ensures
        ({
            let open = run(hw, data_out_ops(Stage::Start, look(hw)));
            let filled = Hardware { buffers: open.buffers.insert(spec_ep_buf(0), mem), ..open };
            let got = run(filled, out_ops(0, data.len() as u16));
            let rx_len = look(got).out_len as int;
            &&& data_out_step(Stage::Start, look(hw), buf.len()) is Again
            &&& open.ctrl[spec_ep_ctrl(0)].r_res == RES_ACK
            &&& data_out_step(Stage::Waiting, look(open), buf.len()) is Wait
            &&& data_out_step(Stage::Waiting, look(got), buf.len()) is Again
            &&& data_out_step(Stage::Ending, look(got), buf.len()) == Step::Done(
                Ok::<usize, EndpointError>(data.len() as usize),
            )
            &&& got.buffers[spec_ep_buf(0)].take(rx_len) + buf.skip(rx_len) == data + buf.skip(
                data.len() as int,
            )
        }),
{
    let open = run(hw, receive_ops());
    let filled = Hardware { buffers: open.buffers.insert(spec_ep_buf(0), mem), ..open };
    law_receive(hw);
    law_out_complete(filled, 0, data.len() as u16);
    assert(mem.take(data.len() as int) =~= data);
}

/// An IN data stage sends what it was given: it queues the chunk, so that the host
/// fetches exactly that; it waits until the host has; and then it succeeds.
pub proof fn law_data_in(hw: Hardware, data: Seq<u8>, last: bool, max: u16)
    requires
        !hw.setup,
        !hw.cut[(0, Direction::In)],
        hw.buffers[spec_ep_buf(0)].len() == MAX_PACKET_SIZE,
        data.len() <= max,
        data.len() <= MAX_PACKET_SIZE,
    ensures
        ({
            let queued = run(hw, data_in_ops(Stage::Start, look(hw), data, last, max));
            let sent = run(queued, in_ops(0));
            &&& data_in_step(Stage::Start, look(hw), data.len(), max) is Again
            &&& packet_to_host(queued, 0) == data
            &&& queued.ctrl[spec_ep_ctrl(0)].t_res == RES_ACK
            &&& data_in_step(Stage::Waiting, look(queued), data.len(), max) is Wait
            &&& data_in_step(Stage::Waiting, look(sent), data.len(), max) is Again
            &&& data_in_step(Stage::Ending, look(sent), data.len(), max) == Step::Done(
                Ok::<(), EndpointError>(()),
            )
        }),
{
    let queued = run(hw, queue_ops(0, data));
    law_queue(hw, 0, data);
    law_in_complete(queued, 0);
    assert(packet_to_host(queued, 0) =~= data);
}

/// At the end of the last chunk of an IN data stage the empty packet by which the
/// host ends the transfer is let in; at the end of other chunks, and of a transfer
/// that was cut short, nothing changes.
pub proof fn law_last_chunk_lets_status_in(hw: Hardware, data: Seq<u8>, last: bool, max: u16)
    ensures
        run(hw, data_in_ops(Stage::Ending, look(hw), data, last, max)) == if !hw.setup
            && !hw.cut[(0, Direction::In)] && last {
            Hardware {
                ctrl: hw.ctrl.insert(
                    spec_ep_ctrl(0),
                    UepCtrl { r_res: RES_ACK, ..hw.ctrl[spec_ep_ctrl(0)] },
                ),
                ..hw
            }
        } else {
            hw
        },
{
    law_receive(hw);
}

/// A chunk that is longer than a packet is refused: nothing is sent, whatever the
/// hardware shows.
pub proof fn law_long_chunk_refused(hw: Hardware, data: Seq<u8>, last: bool, max: u16)
    requires
        data.len() > max,
    ensures
        data_in_step(Stage::Start, look(hw), data.len(), max) == Step::Done(
            Err::<(), EndpointError>(EndpointError::BufferOverflow),
        ),
        data_in_next(Stage::Start, look(hw), data.len(), max) == Stage::Start,
        run(hw, data_in_ops(Stage::Start, look(hw), data, last, max)) == hw,
{
}

/// A wait for the host ends only when the host has done its part, has sent a SETUP
/// packet, or has reset the bus. Until then nothing is asked for and the stage
/// stays.
pub proof fn law_wait_changes_nothing(
    hw: Hardware,
    data: Seq<u8>,
    last: bool,
    buf_len: nat,
    max: u16,
    addr: u8,
)
    requires
        !hw.setup,
    ensures
        hw.ctrl[spec_ep_ctrl(0)].r_res != RES_NAK && !hw.cut[(0, Direction::Out)] ==> {
            &&& data_out_step(Stage::Waiting, look(hw), buf_len) is Wait
            &&& data_out_next(Stage::Waiting, look(hw)) == Stage::Waiting
            &&& run(hw, data_out_ops(Stage::Waiting, look(hw))) == hw
        },
        hw.ctrl[spec_ep_ctrl(0)].t_res != RES_NAK && !hw.cut[(0, Direction::In)] ==> {
            &&& data_in_step(Stage::Waiting, look(hw), data.len(), max) is Wait
            &&& data_in_next(Stage::Waiting, look(hw), data.len(), max) == Stage::Waiting
            &&& run(hw, data_in_ops(Stage::Waiting, look(hw), data, last, max)) == hw
            &&& status_step(Stage::Waiting, look(hw)) is Wait
            &&& run(hw, set_address_ops(Stage::Waiting, look(hw), addr)) == hw
        },
{
}

/// A refused request stalls both directions of endpoint 0, until the next SETUP
/// packet, and changes nothing else.
pub proof fn law_reject(hw: Hardware)
    ensures
        ({
            let reg = spec_ep_ctrl(0);
            let refused = run(hw, reject_ops());
            let next = run(refused, setup_ops());
            &&& refused == Hardware {
                ctrl: hw.ctrl.insert(
                    reg,
                    UepCtrl { t_res: RES_STALL, r_res: RES_STALL, ..hw.ctrl[reg] },
                ),
                ..hw
            }
            &&& next.ctrl[reg].t_res == RES_NAK
            &&& next.ctrl[reg].r_res == RES_NAK
        }),
{
    lemma_run_1(
        hw,
        HwOp::ModifyCtrl(
            CtrlReg::Uep01234(0),
            CtrlUpdate {
                flip_t_tog: false,
                flip_r_tog: false,
                t_res: Some(RES_STALL),
                r_res: Some(RES_STALL),
            },
        ),
    );
    law_setup(run(hw, reject_ops()));
}

} // verus!
