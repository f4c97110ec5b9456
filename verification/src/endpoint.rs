//! Endpoints other than the control endpoint.
//!
//! A transfer may have to wait for the host. [`Endpoint::read`],
//! [`Endpoint::write`] and [`Endpoint::wait_enabled`] are one look at the hardware
//! each: they finish the transfer, or find that it has to wait on. A task leaves
//! its waker at [`Endpoint::waker`] before each look.

use crate::endpoints::{
    ep_buf_ptr, ep_ctrl, ep_t_len, has_buffer, spec_ep_buf, spec_ep_ctrl, spec_ep_t_len, store_ops,
    EndpointBuffer,
};
use crate::regs::{
    CtrlReg, CtrlUpdate, HwOp, UepCtrl, Usbd, WakerId, MAX_PACKET_SIZE, RES_ACK, RES_NAK, RES_STALL,
};
use crate::usb::{
    law_address_parts, Dir, Direction, EndpointAddress, EndpointError, EndpointInfo, EndpointType,
    In, Out, Poll,
};
use core::marker::PhantomData;
use vstd::prelude::*;

verus! {

/// The response code of one direction.
pub open spec fn dir_res(ctrl: UepCtrl, dir: Direction) -> u8 {
    match dir {
        Direction::In => ctrl.t_res,
        Direction::Out => ctrl.r_res,
    }
}

/// Where the tasks that wait for an endpoint leave their wakers.
pub open spec fn dir_waker(index: int, dir: Direction) -> WakerId {
    match dir {
        Direction::In => WakerId::In(index as usize),
        Direction::Out => WakerId::Out(index as usize),
    }
}

/// What a task that waits for a transfer sees: the endpoint is at rest (NAK), it
/// was disabled (STALL), or the transfer is still going on. After a bus reset has
/// cut the transfer, the endpoint counts as disabled, whatever its response: that it
/// is at rest comes from the reset then, not from the host.
pub open spec fn transfer_status(cut: bool, res: u8) -> Poll<u8> {
    if cut {
        Poll::Ready(RES_STALL)
    } else if res == RES_NAK || res == RES_STALL {
        Poll::Ready(res)
    } else {
        Poll::Pending
    }
}

/// What a look for a packet finds: `cut` tells whether a bus reset has cut the
/// transfer, `res` is the response code to OUT tokens, `rx_len` the length of the
/// packet received last, `buf_len` the room for it.
pub open spec fn read_outcome(cut: bool, res: u8, rx_len: u16, buf_len: nat) -> Poll<
    Result<usize, EndpointError>,
> {
    match transfer_status(cut, res) {
        Poll::Pending => Poll::Pending,
        Poll::Ready(stat) => Poll::Ready(
            if stat == RES_STALL {
                Err(EndpointError::Disabled)
            } else if rx_len > buf_len {
                Err(EndpointError::BufferOverflow)
            } else {
                Ok(rx_len as usize)
            },
        ),
    }
}

/// What a read asks for: once the data was taken, the endpoint accepts the next
/// packet. A read that waits or fails asks for nothing.
pub open spec fn read_ops(index: int, outcome: Poll<Result<usize, EndpointError>>) -> Seq<HwOp> {
    match outcome {
        Poll::Ready(Ok(_)) => seq![
            HwOp::ModifyCtrl(spec_ep_ctrl(index), CtrlUpdate::spec_set_r_res(RES_ACK)),
        ],
        _ => Seq::empty(),
    }
}

/// What a read leaves in the caller's buffer: the packet, in front of what was there.
/// A read that waits or fails leaves it alone.
pub open spec fn read_into(
    outcome: Poll<Result<usize, EndpointError>>,
    mem: Seq<u8>,
    buf: Seq<u8>,
) -> Seq<u8> {
    match outcome {
        Poll::Ready(Ok(n)) => mem.take(n as int) + buf.skip(n as int),
        _ => buf,
    }
}

/// What a look for room for a packet of `len` bytes finds: `max` is the packet size
/// of the endpoint, `cut` tells whether a bus reset has cut the transfer, `res` is
/// the response code to IN tokens. What is longer than a packet never becomes a
/// transfer.
pub open spec fn write_outcome(len: nat, max: u16, cut: bool, res: u8) -> Poll<
    Result<(), EndpointError>,
> {
    if len > max {
        Poll::Ready(Err(EndpointError::BufferOverflow))
    } else {
        match transfer_status(cut, res) {
            Poll::Pending => Poll::Pending,
            Poll::Ready(stat) => Poll::Ready(
                if stat == RES_STALL {
                    Err(EndpointError::Disabled)
                } else {
                    Ok(())
                },
            ),
        }
    }
}

/// What a look for the endpoint to be usable finds, given the note of a bus reset and
/// the response of its direction.
pub open spec fn enabled_outcome(cut: bool, res: u8) -> Poll<()> {
    if cut || res == RES_STALL {
        Poll::Pending
    } else {
        Poll::Ready(())
    }
}

/// Queues `data`: it goes to the buffer, then its length is set, then the endpoint
/// answers the host with it.
pub open spec fn queue_ops(index: int, data: Seq<u8>) -> Seq<HwOp> {
    store_ops(spec_ep_buf(index), data) + seq![
        HwOp::WriteTLen(spec_ep_t_len(index), data.len() as u8),
        HwOp::ModifyCtrl(spec_ep_ctrl(index), CtrlUpdate::spec_set_t_res(RES_ACK)),
    ]
}

/// What a write asks for: the data is queued. A write that waits or fails asks for
/// nothing.
pub open spec fn write_ops(
    index: int,
    data: Seq<u8>,
    outcome: Poll<Result<(), EndpointError>>,
) -> Seq<HwOp> {
    match outcome {
        Poll::Ready(Ok(_)) => queue_ops(index, data),
        _ => Seq::empty(),
    }
}

/// An allocated endpoint of direction `D`.
pub struct Endpoint<D, const EP_COUNT: usize> {
    _phantom: PhantomData<D>,
    info: EndpointInfo,
    buf: EndpointBuffer,
}

impl<D, const EP_COUNT: usize> Endpoint<D, EP_COUNT> {
    pub closed spec fn view(&self) -> EndpointInfo {
        self.info
    }

    pub closed spec fn spec_buf(&self) -> EndpointBuffer {
        self.buf
    }
}

impl<D: Dir, const EP_COUNT: usize> Endpoint<D, EP_COUNT> {
    /// The endpoint has a buffer of its own, which its packets fit into, and its
    /// address tells its direction.
    pub open spec fn wf(&self) -> bool {
        let index = self@.addr.spec_index();
        &&& index != 0
        &&& has_buffer(EP_COUNT, index)
        &&& self@.addr.spec_direction() == D::spec_dir()
        &&& self@.max_packet_size <= MAX_PACKET_SIZE
        &&& self.spec_buf() == EndpointBuffer { ptr: spec_ep_buf(index), len: MAX_PACKET_SIZE }
    }

    /// Endpoint number `index` with the given properties.
    pub(crate) fn new(
        index: usize,
        ep_type: EndpointType,
        max_packet_size: u16,
        interval_ms: u8,
    ) -> (ep: Self)
        requires
            index != 0,
            has_buffer(EP_COUNT, index as int),
            max_packet_size <= MAX_PACKET_SIZE,
        ensures
            ep.wf(),
            ep@ == (EndpointInfo {
                addr: EndpointAddress::spec_from_parts(index, D::spec_dir()),
                ep_type,
                max_packet_size,
                interval_ms,
            }),
            ep@.addr.spec_index() == index,
    {
        proof {
            law_address_parts(index, D::spec_dir());
        }
        Endpoint {
            _phantom: PhantomData,
            info: EndpointInfo {
                addr: EndpointAddress::from_parts(index, D::dir()),
                ep_type,
                max_packet_size,
                interval_ms,
            },
            buf: EndpointBuffer { ptr: ep_buf_ptr::<EP_COUNT>(index), len: MAX_PACKET_SIZE },
        }
    }

    /// The properties of the endpoint.
    pub fn info(&self) -> (info: &EndpointInfo)
        ensures
            *info == self@,
    {
        &self.info
    }

    /// The control register to look at while waiting.
    pub fn ctrl_reg(&self) -> (reg: CtrlReg)
        requires
            self.wf(),
        ensures
            reg == spec_ep_ctrl(self@.addr.spec_index()),
    {
        ep_ctrl::<EP_COUNT>(self.info.addr.index())
    }

    /// Where to leave a waker while waiting.
    pub fn waker(&self) -> (id: WakerId)
        ensures
            id == dir_waker(self@.addr.spec_index(), self@.addr.spec_direction()),
    {
        let index: usize = self.info.addr.index();
        match self.info.addr.direction() {
            Direction::In => WakerId::In(index),
            Direction::Out => WakerId::Out(index),
        }
    }

    /// One look while waiting for the endpoint to be usable, that is, neither to
    /// stall nor, after a bus reset, to fail its transfers. `cut` is the note of the
    /// reset, read after `ctrl`.
    pub fn wait_enabled(&self, ctrl: UepCtrl, cut: bool) -> (r: Poll<()>)
        ensures
            r == enabled_outcome(cut, dir_res(ctrl, self@.addr.spec_direction())),
    {
        let disabled = match self.info.addr.direction() {
            Direction::In => ctrl.t_res == RES_STALL,
            Direction::Out => ctrl.r_res == RES_STALL,
        };
        if cut || disabled {
            Poll::Pending
        } else {
            Poll::Ready(())
        }
    }
}

impl<const EP_COUNT: usize> Endpoint<Out, EP_COUNT> {
    /// One look while waiting for a packet. Takes it to `buf` once there is one; a
    /// packet that does not fit stays where it is.
    ///
    /// `ctrl` is the control register, `cut` the note of a bus reset, `rx_len` the
    /// length kept for the endpoint and `mem` what its DMA buffer holds, read in this
    /// order, without the endpoint being enabled or unstalled in between: once `ctrl`
    /// and `cut` tell that a packet is held, the other two do not change.
    pub fn read(
        &self,
        usb: &mut Usbd,
        ctrl: UepCtrl,
        cut: bool,
        rx_len: u16,
        mem: &[u8],
        buf: &mut [u8],
    ) -> (r: Poll<Result<usize, EndpointError>>)
        requires
            self.wf(),
            mem@.len() == MAX_PACKET_SIZE,
            !cut && ctrl.r_res == RES_NAK && rx_len <= old(buf)@.len() ==> rx_len
                <= MAX_PACKET_SIZE,
        ensures
            r == read_outcome(cut, ctrl.r_res, rx_len, old(buf)@.len()),
            final(usb)@ == old(usb)@ + read_ops(self@.addr.spec_index(), r),
            final(buf)@ == read_into(r, mem@, old(buf)@),
    {
        if cut {
            return Poll::Ready(Err(EndpointError::Disabled));
        }
        let index: usize = self.info.addr.index();
        let stat: u8 = match ctrl.r_res {
            RES_NAK => RES_NAK,
            RES_STALL => RES_STALL,
            _ => {
                return Poll::Pending;
            },
        };
        if stat == RES_STALL {
            return Poll::Ready(Err(EndpointError::Disabled));
        }
        let rx_len: usize = rx_len as usize;
        if rx_len > buf.len() {
            return Poll::Ready(Err(EndpointError::BufferOverflow));
        }
        self.buf.read(mem, buf, rx_len);
        usb.push(HwOp::ModifyCtrl(ep_ctrl::<EP_COUNT>(index), CtrlUpdate::set_r_res(RES_ACK)));
        Poll::Ready(Ok(rx_len))
    }
}

impl<const EP_COUNT: usize> Endpoint<In, EP_COUNT> {
    /// One look while waiting for the packet before to be gone. Queues `buf` once it
    /// is. Refuses at once what is longer than a packet. `cut` is the note of a bus
    /// reset, read after `ctrl`.
    pub fn write(&self, usb: &mut Usbd, ctrl: UepCtrl, cut: bool, buf: &[u8]) -> (r: Poll<
        Result<(), EndpointError>,
    >)
        requires
            self.wf(),
        ensures
            r == write_outcome(buf@.len(), self@.max_packet_size, cut, ctrl.t_res),
            final(usb)@ == old(usb)@ + write_ops(self@.addr.spec_index(), buf@, r),
    {
        if buf.len() > self.info.max_packet_size as usize {
            return Poll::Ready(Err(EndpointError::BufferOverflow));
        }
        if cut {
            return Poll::Ready(Err(EndpointError::Disabled));
        }
        let index: usize = self.info.addr.index();
        let stat: u8 = match ctrl.t_res {
            RES_NAK => RES_NAK,
            RES_STALL => RES_STALL,
            _ => {
                return Poll::Pending;
            },
        };
        if stat == RES_STALL {
            return Poll::Ready(Err(EndpointError::Disabled));
        }
        self.buf.write(usb, buf);
        usb.push(HwOp::WriteTLen(ep_t_len::<EP_COUNT>(index), buf.len() as u8));
        usb.push(HwOp::ModifyCtrl(ep_ctrl::<EP_COUNT>(index), CtrlUpdate::set_t_res(RES_ACK)));
        Poll::Ready(Ok(()))
    }
}

} // verus!
