//! The control pipe: both directions of endpoint 0, which take turns in one DMA
//! buffer.
//!
//! A stage of a control transfer is carried out step by step. The caller starts
//! with [`Stage::Start`], takes a [`ControlLook`] at the hardware, has the step
//! decided, performs what it asks for, and goes on as [`Step`] says. A new SETUP
//! packet ends every wait; a bus reset ends the transfer, whichever stage it is in.

use crate::endpoint::queue_ops;
use crate::endpoints::EndpointBuffer;
use crate::regs::{
    CtrlReg, CtrlUpdate, EpBuf, HwOp, TLenReg, UepCtrl, Usbd, WakerId, MAX_PACKET_SIZE, RES_ACK,
    RES_NAK, RES_STALL,
};
use crate::usb::{Direction, EndpointError, Poll};
use vstd::prelude::*;

verus! {

/// How far a stage of a control transfer has come.
#[derive(Clone, Copy, Debug, PartialEq, Eq, Structural)]
pub enum Stage {
    /// Nothing was done yet.
    Start,
    /// It is up to the host.
    Waiting,
    /// The wait is over.
    Ending,
}

/// How to go on after a step.
#[derive(Debug, PartialEq, Eq)]
pub enum Step<R> {
    /// Look at the hardware again at once.
    Again,
    /// Look again when woken.
    Wait,
    /// The stage is over.
    Done(R),
}

/// A look at the state of endpoint 0, read in the order of the fields: whoever sees
/// the register at rest because of a SETUP packet or a bus reset finds the note of
/// it.
#[derive(Clone, Copy, Debug, PartialEq, Eq, Structural)]
pub struct ControlLook {
    /// The control register.
    pub ctrl: UepCtrl,
    /// A SETUP packet has arrived that was not picked up.
    pub setup: bool,
    /// A bus reset has cut the IN transfers.
    pub cut_in: bool,
    /// A bus reset has cut the OUT transfers.
    pub cut_out: bool,
    /// The length kept of the last OUT packet.
    pub out_len: u16,
}

/// Whether a wait for the host is over: a SETUP packet arrived (ready with `true`),
/// or the direction is at rest again (ready with `false`).
pub open spec fn control_wait(setup: bool, res: u8) -> Poll<bool> {
    if setup {
        Poll::Ready(true)
    } else if res == RES_NAK {
        Poll::Ready(false)
    } else {
        Poll::Pending
    }
}

/// Answers with an empty packet, which ends a transfer.
pub open spec fn status_ops() -> Seq<HwOp> {
    seq![
        HwOp::WriteTLen(TLenReg::Uep01234(0), 0),
        HwOp::ModifyCtrl(CtrlReg::Uep01234(0), CtrlUpdate::spec_set_t_res(RES_ACK)),
    ]
}

/// Lets the next OUT packet in.
pub open spec fn receive_ops() -> Seq<HwOp> {
    seq![HwOp::ModifyCtrl(CtrlReg::Uep01234(0), CtrlUpdate::spec_set_r_res(RES_ACK))]
}

/// Refuses both directions.
pub open spec fn reject_ops() -> Seq<HwOp> {
    seq![
        HwOp::ModifyCtrl(
            CtrlReg::Uep01234(0),
            CtrlUpdate {
                flip_t_tog: false,
                flip_r_tog: false,
                t_res: Some(RES_STALL),
                r_res: Some(RES_STALL),
            },
        ),
    ]
}

/// The stage after a step that waits for `over` in between start and end.
pub open spec fn next_stage(stage: Stage, over: bool) -> Stage {
    match stage {
        Stage::Start => Stage::Waiting,
        Stage::Waiting => if over {
            Stage::Ending
        } else {
            Stage::Waiting
        },
        Stage::Ending => Stage::Ending,
    }
}

/// A step towards the next SETUP packet. The end hands `packet` over.
pub open spec fn setup_step<R>(stage: Stage, look: ControlLook, packet: R) -> Step<R> {
    if stage == Stage::Ending {
        Step::Done(packet)
    } else if look.setup {
        Step::Again
    } else {
        Step::Wait
    }
}

/// The stage after that step: a packet that arrived is taken next.
pub open spec fn setup_next(stage: Stage, look: ControlLook) -> Stage {
    if stage == Stage::Ending || look.setup {
        Stage::Ending
    } else {
        stage
    }
}

/// What that step asks for: a packet counts as picked up before it is taken, so
/// that one that arrives meanwhile is not missed. With it a new transfer begins,
/// which no reset has cut.
pub open spec fn setup_step_ops(stage: Stage, look: ControlLook) -> Seq<HwOp> {
    if stage != Stage::Ending && look.setup {
        seq![
            HwOp::StoreSetup(false),
            HwOp::StoreCut { index: 0, dir: Direction::In, value: false },
            HwOp::StoreCut { index: 0, dir: Direction::Out, value: false },
        ]
    } else {
        Seq::empty()
    }
}

/// The SETUP packet, of what the buffer of endpoint 0 holds.
pub open spec fn setup_packet(mem: Seq<u8>) -> Seq<u8> {
    mem.take(8)
}

/// The outcome of receiving a chunk.
pub open spec fn data_out_result(look: ControlLook, buf_len: nat) -> Result<usize, EndpointError> {
    if look.setup {
        Err(EndpointError::Disabled)
    } else if look.out_len > buf_len {
        Err(EndpointError::BufferOverflow)
    } else {
        Ok(look.out_len as usize)
    }
}

/// A step of receiving a chunk of an OUT data stage.
pub open spec fn data_out_step(stage: Stage, look: ControlLook, buf_len: nat) -> Step<
    Result<usize, EndpointError>,
> {
    if look.cut_out {
        Step::Done(Err(EndpointError::Disabled))
    } else {
        match stage {
            Stage::Start => Step::Again,
            Stage::Waiting => if control_wait(look.setup, look.ctrl.r_res) is Ready {
                Step::Again
            } else {
                Step::Wait
            },
            Stage::Ending => Step::Done(data_out_result(look, buf_len)),
        }
    }
}

/// The stage after that step. A transfer that a reset has cut goes no further.
pub open spec fn data_out_next(stage: Stage, look: ControlLook) -> Stage {
    if look.cut_out {
        stage
    } else {
        next_stage(stage, control_wait(look.setup, look.ctrl.r_res) is Ready)
    }
}

/// What that step leaves in the caller's buffer: at the end the chunk, in front of
/// what was there.
pub open spec fn data_out_into(
    step: Step<Result<usize, EndpointError>>,
    mem: Seq<u8>,
    buf: Seq<u8>,
) -> Seq<u8> {
    match step {
        Step::Done(Ok(n)) => mem.take(n as int) + buf.skip(n as int),
        _ => buf,
    }
}

/// What that step asks for: at the start, the packet is let in.
pub open spec fn data_out_ops(stage: Stage, look: ControlLook) -> Seq<HwOp> {
    if stage == Stage::Start && !look.cut_out {
        receive_ops()
    } else {
        Seq::empty()
    }
}

/// A step of sending a chunk of `len` bytes of an IN data stage, over a pipe with
/// packets of `max` bytes.
pub open spec fn data_in_step(stage: Stage, look: ControlLook, len: nat, max: u16) -> Step<
    Result<(), EndpointError>,
> {
    if stage == Stage::Start && len > max {
        Step::Done(Err(EndpointError::BufferOverflow))
    } else if look.cut_in {
        Step::Done(Err(EndpointError::Disabled))
    } else {
        match stage {
            Stage::Start => Step::Again,
            Stage::Waiting => if control_wait(look.setup, look.ctrl.t_res) is Ready {
                Step::Again
            } else {
                Step::Wait
            },
            Stage::Ending => Step::Done(
                if look.setup {
                    Err(EndpointError::Disabled)
                } else {
                    Ok(())
                },
            ),
        }
    }
}

/// The stage after that step. A chunk that is refused does not start, and a
/// transfer that a reset has cut goes no further.
pub open spec fn data_in_next(stage: Stage, look: ControlLook, len: nat, max: u16) -> Stage {
    if stage == Stage::Start && len > max || look.cut_in {
        stage
    } else {
        next_stage(stage, control_wait(look.setup, look.ctrl.t_res) is Ready)
    }
}

/// What that step asks for: at the start the chunk is queued; after the last
/// chunk, the empty packet by which the host ends the transfer is let in.
pub open spec fn data_in_ops(
    stage: Stage,
    look: ControlLook,
    data: Seq<u8>,
    last: bool,
    max: u16,
) -> Seq<HwOp> {
    if look.cut_in {
        Seq::empty()
    } else if stage == Stage::Start && data.len() <= max {
        queue_ops(0, data)
    } else if stage == Stage::Ending && !look.setup && last {
        receive_ops()
    } else {
        Seq::empty()
    }
}

/// A step of the status stage. Done with `true` when the host has fetched the empty
/// packet, with `false` when a SETUP packet or a bus reset came in between.
pub open spec fn status_step(stage: Stage, look: ControlLook) -> Step<bool> {
    if look.cut_in {
        Step::Done(false)
    } else if stage == Stage::Start {
        Step::Again
    } else {
        match control_wait(look.setup, look.ctrl.t_res) {
            Poll::Ready(cut) => Step::Done(!cut),
            Poll::Pending => Step::Wait,
        }
    }
}

/// The stage after that step.
pub open spec fn status_next(stage: Stage, look: ControlLook) -> Stage {
    if stage == Stage::Start && !look.cut_in {
        Stage::Waiting
    } else {
        stage
    }
}

/// What that step asks for.
pub open spec fn status_step_ops(stage: Stage, look: ControlLook) -> Seq<HwOp> {
    if stage == Stage::Start && !look.cut_in {
        status_ops()
    } else {
        Seq::empty()
    }
}

/// A step without a result, from one with a result.
pub open spec fn forget<R>(step: Step<R>) -> Step<()> {
    match step {
        Step::Again => Step::Again,
        Step::Wait => Step::Wait,
        Step::Done(_) => Step::Done(()),
    }
}

/// What a step of SET_ADDRESS asks for: the address changes once the status stage
/// is complete, and at no other time.
pub open spec fn set_address_ops(stage: Stage, look: ControlLook, addr: u8) -> Seq<HwOp> {
    if status_step(stage, look) == Step::Done(true) {
        seq![HwOp::ModifyDevAd(addr)]
    } else {
        status_step_ops(stage, look)
    }
}

/// The control pipe. Its view is the packet size.
pub struct ControlPipe {
    max_packet_size: u16,
}

impl ControlPipe {
    pub closed spec fn view(&self) -> u16 {
        self.max_packet_size
    }

    pub(crate) fn new(max_packet_size: u16) -> (pipe: ControlPipe)
        ensures
            pipe@ == max_packet_size,
    {
        ControlPipe { max_packet_size }
    }

    /// The buffer of endpoint 0.
    pub fn buf(&self) -> (buf: EndpointBuffer)
        ensures
            buf == (EndpointBuffer { ptr: EpBuf::Buf0, len: MAX_PACKET_SIZE }),
    {
        EndpointBuffer { ptr: EpBuf::Buf0, len: MAX_PACKET_SIZE }
    }

    /// The packet size of the control pipe.
    pub fn max_packet_size(&self) -> (size: usize)
        ensures
            size == self@,
    {
        self.max_packet_size as usize
    }

    /// The control register to look at.
    pub fn ctrl_reg(&self) -> (reg: CtrlReg)
        ensures
            reg == CtrlReg::Uep01234(0),
    {
        CtrlReg::Uep01234(0)
    }

    /// Where to leave a waker in [`setup`](Self::setup) and
    /// [`data_out`](Self::data_out).
    pub fn out_waker(&self) -> (id: WakerId)
        ensures
            id == WakerId::Out(0),
    {
        WakerId::Out(0)
    }

    /// Where to leave a waker in [`data_in`](Self::data_in) and in the status
    /// stage.
    pub fn in_waker(&self) -> (id: WakerId)
        ensures
            id == WakerId::In(0),
    {
        WakerId::In(0)
    }

    /// One step towards the next SETUP packet. `mem` is what the buffer holds, read
    /// after `look`.
    pub fn setup(&self, stage: &mut Stage, usb: &mut Usbd, look: ControlLook, mem: &[u8]) -> (r:
        Step<[u8; 8]>)
        requires
            mem@.len() == MAX_PACKET_SIZE,
        ensures
            r is Done ==> r->Done_0@ == setup_packet(mem@),
            r == setup_step(*old(stage), look, r->Done_0),
            *final(stage) == setup_next(*old(stage), look),
            final(usb)@ == old(usb)@ + setup_step_ops(*old(stage), look),
    {
        match *stage {
            Stage::Ending => {
                let mut packet = [0u8;8];
                self.buf().read(mem, &mut packet, 8);
                Step::Done(packet)
            },
            _ => {
                if look.setup {
                    usb.push(HwOp::StoreSetup(false));
                    usb.push(HwOp::StoreCut { index: 0, dir: Direction::In, value: false });
                    usb.push(HwOp::StoreCut { index: 0, dir: Direction::Out, value: false });
                    *stage = Stage::Ending;
                    Step::Again
                } else {
                    Step::Wait
                }
            },
        }
    }

    /// One step of receiving a chunk of an OUT data stage to `buf`. `mem` is what the
    /// buffer of endpoint 0 holds, read after `look`.
    pub fn data_out(
        &self,
        stage: &mut Stage,
        usb: &mut Usbd,
        look: ControlLook,
        mem: &[u8],
        buf: &mut [u8],
    ) -> (r: Step<Result<usize, EndpointError>>)
        requires
            mem@.len() == MAX_PACKET_SIZE,
            *old(stage) == Stage::Ending && !look.cut_out && data_out_result(
                look,
                old(buf)@.len(),
            ) is Ok ==> look.out_len <= MAX_PACKET_SIZE,
        ensures
            r == data_out_step(*old(stage), look, old(buf)@.len()),
            *final(stage) == data_out_next(*old(stage), look),
            final(usb)@ == old(usb)@ + data_out_ops(*old(stage), look),
            final(buf)@ == data_out_into(r, mem@, old(buf)@),
    {
        if look.cut_out {
            return Step::Done(Err(EndpointError::Disabled));
        }
        match *stage {
            Stage::Start => {
                usb.push(HwOp::ModifyCtrl(CtrlReg::Uep01234(0), CtrlUpdate::set_r_res(RES_ACK)));
                *stage = Stage::Waiting;
                Step::Again
            },
            Stage::Waiting => {
                if look.setup || look.ctrl.r_res == RES_NAK {
                    *stage = Stage::Ending;
                    Step::Again
                } else {
                    Step::Wait
                }
            },
            Stage::Ending => {
                if look.setup {
                    return Step::Done(Err(EndpointError::Disabled));
                }
                let rx_len: usize = look.out_len as usize;
                if rx_len > buf.len() {
                    return Step::Done(Err(EndpointError::BufferOverflow));
                }
                self.buf().read(mem, buf, rx_len);
                Step::Done(Ok(rx_len))
            },
        }
    }

    /// One step of sending `data` as a chunk of an IN data stage, the last one or
    /// not. Refuses what is longer than a packet.
    pub fn data_in(
        &self,
        stage: &mut Stage,
        usb: &mut Usbd,
        look: ControlLook,
        data: &[u8],
        last: bool,
    ) -> (r: Step<Result<(), EndpointError>>)
        requires
            *old(stage) == Stage::Start && !look.cut_in && data@.len() <= self@ ==> data@.len()
                <= MAX_PACKET_SIZE,
        ensures
            r == data_in_step(*old(stage), look, data@.len(), self@),
            *final(stage) == data_in_next(*old(stage), look, data@.len(), self@),
            final(usb)@ == old(usb)@ + data_in_ops(*old(stage), look, data@, last, self@),
    {
        match *stage {
            Stage::Start => {
                if data.len() > self.max_packet_size as usize {
                    return Step::Done(Err(EndpointError::BufferOverflow));
                }
                if look.cut_in {
                    return Step::Done(Err(EndpointError::Disabled));
                }
                self.buf().write(usb, data);
                usb.push(HwOp::WriteTLen(TLenReg::Uep01234(0), data.len() as u8));
                usb.push(HwOp::ModifyCtrl(CtrlReg::Uep01234(0), CtrlUpdate::set_t_res(RES_ACK)));
                *stage = Stage::Waiting;
                Step::Again
            },
            Stage::Waiting => {
                if look.cut_in {
                    return Step::Done(Err(EndpointError::Disabled));
                }
                if look.setup || look.ctrl.t_res == RES_NAK {
                    *stage = Stage::Ending;
                    Step::Again
                } else {
                    Step::Wait
                }
            },
            Stage::Ending => {
                if look.cut_in || look.setup {
                    return Step::Done(Err(EndpointError::Disabled));
                }
                if last {
                    usb.push(
                        HwOp::ModifyCtrl(CtrlReg::Uep01234(0), CtrlUpdate::set_r_res(RES_ACK)),
                    );
                }
                Step::Done(Ok(()))
            },
        }
    }

    /// One step of the status stage: an empty packet to the host. Done with `false`
    /// when a SETUP packet or a bus reset came in between: what was accepted must not
    /// take effect then.
    pub fn send_status_zlp(&self, stage: &mut Stage, usb: &mut Usbd, look: ControlLook) -> (r: Step<
        bool,
    >)
        ensures
            r == status_step(*old(stage), look),
            *final(stage) == status_next(*old(stage), look),
            final(usb)@ == old(usb)@ + status_step_ops(*old(stage), look),
    {
        if look.cut_in {
            return Step::Done(false);
        }
        match *stage {
            Stage::Start => {
                usb.push(HwOp::WriteTLen(TLenReg::Uep01234(0), 0));
                usb.push(HwOp::ModifyCtrl(CtrlReg::Uep01234(0), CtrlUpdate::set_t_res(RES_ACK)));
                *stage = Stage::Waiting;
                Step::Again
            },
            _ => {
                if look.setup {
                    return Step::Done(false);
                }
                if look.ctrl.t_res == RES_NAK {
                    Step::Done(true)
                } else {
                    Step::Wait
                }
            },
        }
    }

    /// One step of accepting a request, which is its status stage.
    pub fn accept(&self, stage: &mut Stage, usb: &mut Usbd, look: ControlLook) -> (r: Step<()>)
        ensures
            r == forget(status_step(*old(stage), look)),
            *final(stage) == status_next(*old(stage), look),
            final(usb)@ == old(usb)@ + status_step_ops(*old(stage), look),
    {
        match self.send_status_zlp(stage, usb, look) {
            Step::Again => Step::Again,
            Step::Wait => Step::Wait,
            Step::Done(_) => Step::Done(()),
        }
    }

    /// Refuses a request.
    pub fn reject(&self, usb: &mut Usbd)
        ensures
            final(usb)@ == old(usb)@ + reject_ops(),
    {
        usb.push(
            HwOp::ModifyCtrl(
                CtrlReg::Uep01234(0),
                CtrlUpdate {
                    flip_t_tog: false,
                    flip_r_tog: false,
                    t_res: Some(RES_STALL),
                    r_res: Some(RES_STALL),
                },
            ),
        );
    }

    /// One step of accepting SET_ADDRESS: its status stage, and then the change of
    /// the address, unless a SETUP packet or a bus reset came in between.
    pub fn accept_set_address(
        &self,
        stage: &mut Stage,
        usb: &mut Usbd,
        look: ControlLook,
        addr: u8,
    ) -> (r: Step<()>)
        ensures
            r == forget(status_step(*old(stage), look)),
            *final(stage) == status_next(*old(stage), look),
            final(usb)@ == old(usb)@ + set_address_ops(*old(stage), look, addr),
    {
        match self.send_status_zlp(stage, usb, look) {
            Step::Again => Step::Again,
            Step::Wait => Step::Wait,
            Step::Done(ok) => {
                if ok {
                    usb.push(HwOp::ModifyDevAd(addr));
                }
                Step::Done(())
            },
        }
    }
}

} // verus!
