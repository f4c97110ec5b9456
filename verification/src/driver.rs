//! Bringing the peripheral up and handing out its endpoints.

use crate::bus::Bus;
use crate::control::ControlPipe;
use crate::endpoint::Endpoint;
use crate::endpoints::{
    enable_ep_mode, ep_buf_ptr, ep_ctrl, ep_dma, mode_op, spec_ep_buf, spec_ep_ctrl,
    spec_ep_dma, valid_ep_count,
};
use crate::regs::{
    AfioUsb, CtrlReg, DmaReg, EpBuf, HwOp, IntEn, UdevCtrl, UepCtrl, UsbCtrl, UsbPin, Usbd, WakerId,
    MAX_PACKET_SIZE, RES_ACK, RES_NAK,
};
use crate::usb::{
    Dir, Direction, EndpointAddress, EndpointAllocError, EndpointInfo, EndpointType, In, Out,
};
use vstd::prelude::*;

verus! {

/// How one endpoint is allocated.
#[derive(Clone, Copy, Debug, PartialEq, Eq, Structural)]
pub struct EndpointData {
    pub ep_type: EndpointType,
    pub used_in: bool,
    pub used_out: bool,
}

impl EndpointData {
    /// Not allocated in either direction.
    pub open spec fn is_free(self) -> bool {
        !self.used_in && !self.used_out
    }

    /// Allocated in one direction.
    pub open spec fn allocated(ep_type: EndpointType, dir: Direction) -> EndpointData {
        EndpointData { ep_type, used_in: dir == Direction::In, used_out: dir == Direction::Out }
    }
}

/// Supply voltage of the board. Pull-up of D+ and PHY mode follow from it
/// together.
#[derive(Clone, Copy, Debug, PartialEq, Eq, Structural)]
pub enum UsbVoltage {
    /// About 3.3 V: 1.5 kOhm pull-up, PHY at full 3.3 V swing.
    V33,
    /// About 5 V: 10 kOhm pull-up, PHY tolerates 5 V.
    V5,
}

/// Pin and PHY settings for a supply voltage.
pub open spec fn afio_for(vdd: UsbVoltage) -> AfioUsb {
    AfioUsb {
        udm_pue: 0b00,
        udp_pue: if vdd == UsbVoltage::V33 {
            0b11
        } else {
            0b10
        },
        usb_phy_v33: vdd == UsbVoltage::V33,
        usb_ioen: true,
    }
}

/// How the peripheral is brought up.
///
/// The pull-up has to be on before the port is enabled: the other way round the
/// port enable does not take effect.
pub open spec fn init_ops(vdd: UsbVoltage) -> Seq<HwOp> {
    seq![
        HwOp::FloatPin(UsbPin::Dp),
        HwOp::FloatPin(UsbPin::Dm),
        HwOp::EnableAndReset,
        HwOp::ModifyAfio(afio_for(vdd)),
        HwOp::WriteDevAd(0),
        HwOp::WriteUsbCtrl(UsbCtrl { dev_pu_en: true, int_busy: true, dma_en: true }),
        HwOp::WriteUdevCtrl(UdevCtrl { pd_dis: true, port_en: true }),
        HwOp::WriteIntEn(IntEn { bus_rst: true, transfer: true, suspend: true }),
    ]
}

/// The table before any allocation.
pub open spec fn fresh(ep_count: usize) -> Seq<EndpointData> {
    Seq::new(
        ep_count as nat,
        |i: int| EndpointData { ep_type: EndpointType::Bulk, used_in: false, used_out: false },
    )
}

/// Whether endpoint `index` can still be allocated. Endpoint 0 is the control
/// endpoint, endpoint 4 has no buffer, and each of the others has one buffer, so
/// that either direction takes all of it.
pub open spec fn available(alloc: Seq<EndpointData>, index: int) -> bool {
    1 <= index < alloc.len() && index != 4 && alloc[index].is_free()
}

/// The lowest available endpoint from `from` on.
pub open spec fn first_available(alloc: Seq<EndpointData>, from: int) -> Option<int>
    decreases alloc.len() - from,
{
    if from >= alloc.len() {
        None
    } else if available(alloc, from) {
        Some(from)
    } else {
        first_available(alloc, from + 1)
    }
}

/// The endpoint that a request gets: the one it names if that is available, or
/// else, if it names none, the lowest available one.
pub open spec fn alloc_target(alloc: Seq<EndpointData>, ep_addr: Option<EndpointAddress>) -> Option<
    int,
> {
    match ep_addr {
        Some(addr) => if available(alloc, addr.spec_index()) {
            Some(addr.spec_index())
        } else {
            None
        },
        None => first_available(alloc, 1),
    }
}

/// The properties of the endpoint that a request gets, if it gets one.
pub open spec fn alloc_info(
    alloc: Seq<EndpointData>,
    dir: Direction,
    ep_type: EndpointType,
    ep_addr: Option<EndpointAddress>,
    max_packet_size: u16,
    interval_ms: u8,
) -> Option<EndpointInfo> {
    match alloc_target(alloc, ep_addr) {
        Some(index) => if max_packet_size <= MAX_PACKET_SIZE {
            Some(
                EndpointInfo {
                    addr: EndpointAddress::spec_from_parts(index as usize, dir),
                    ep_type,
                    max_packet_size,
                    interval_ms,
                },
            )
        } else {
            None
        },
        None => None,
    }
}

/// The table after a request.
pub open spec fn alloc_after(
    alloc: Seq<EndpointData>,
    dir: Direction,
    ep_type: EndpointType,
    ep_addr: Option<EndpointAddress>,
    max_packet_size: u16,
) -> Seq<EndpointData> {
    match alloc_target(alloc, ep_addr) {
        Some(index) => if max_packet_size <= MAX_PACKET_SIZE {
            alloc.update(index, EndpointData::allocated(ep_type, dir))
        } else {
            alloc
        },
        None => alloc,
    }
}

/// A table of endpoints that can come about by allocation: no endpoint is used in
/// both directions, and endpoints 0 and 4 are in none.
pub open spec fn alloc_wf(alloc: Seq<EndpointData>) -> bool {
    &&& alloc.len() == 4 || alloc.len() == 8
    &&& forall|i: int|
        0 <= i < alloc.len() ==> !((#[trigger] alloc[i]).used_in && alloc[i].used_out)
    &&& alloc[0].is_free()
    &&& alloc.len() == 8 ==> alloc[4].is_free()
}

/// The direction of an endpoint that is allocated in one.
pub open spec fn used_dir(data: EndpointData) -> Direction {
    if data.used_in {
        Direction::In
    } else {
        Direction::Out
    }
}

/// What the start asks for on behalf of one endpoint. A bus reset of before the
/// start does not count.
pub open spec fn endpoint_start_ops(index: int, data: EndpointData) -> Seq<HwOp> {
    if index == 4 || data.is_free() {
        Seq::empty()
    } else {
        seq![
            HwOp::WriteDma(spec_ep_dma(index), spec_ep_buf(index)),
            HwOp::WriteCtrl(
                spec_ep_ctrl(index),
                UepCtrl { t_tog: false, r_tog: false, t_res: RES_NAK, r_res: RES_NAK },
            ),
            HwOp::StoreCut { index: index as usize, dir: used_dir(data), value: false },
            mode_op(index, data.used_in, data.used_out),
        ]
    }
}

/// What the start asks for on behalf of endpoints 1 to `n - 1`.
pub open spec fn endpoints_start_ops(alloc: Seq<EndpointData>, n: int) -> Seq<HwOp>
    decreases n,
{
    if n <= 1 {
        Seq::empty()
    } else {
        endpoints_start_ops(alloc, n - 1) + endpoint_start_ops(n - 1, alloc[n - 1])
    }
}

/// What the start asks for: the allocated endpoints are set up, then the control
/// endpoint, which is ready to receive; last the interrupt is let in.
pub open spec fn start_ops(alloc: Seq<EndpointData>) -> Seq<HwOp> {
    endpoints_start_ops(alloc, alloc.len() as int) + seq![
        HwOp::WriteDma(DmaReg::Uep0123(0), EpBuf::Buf0),
        HwOp::WriteCtrl(
            CtrlReg::Uep01234(0),
            UepCtrl { t_tog: false, r_tog: false, t_res: RES_NAK, r_res: RES_ACK },
        ),
        HwOp::StoreCut { index: 0, dir: Direction::In, value: false },
        HwOp::StoreCut { index: 0, dir: Direction::Out, value: false },
        HwOp::UnpendInterrupt,
        HwOp::EnableInterrupt,
        HwOp::Wake(WakerId::Bus),
    ]
}

/// The driver before it is started, with a table of `EP_COUNT` endpoints.
pub struct Driver<const EP_COUNT: usize> {
    alloc: [EndpointData; EP_COUNT],
}

impl<const EP_COUNT: usize> Driver<EP_COUNT> {
    pub closed spec fn view(&self) -> Seq<EndpointData> {
        self.alloc@
    }

    pub open spec fn wf(&self) -> bool {
        self@.len() == EP_COUNT && alloc_wf(self@)
    }

    /// Brings the peripheral up for a board of supply voltage `vdd`. No endpoint is
    /// allocated yet.
    pub fn new(usb: &mut Usbd, vdd: UsbVoltage) -> (driver: Self)
        requires
            valid_ep_count(EP_COUNT),
        ensures
            driver.wf(),
            driver@ == fresh(EP_COUNT),
            final(usb)@ == old(usb)@ + init_ops(vdd),
    {
        usb.push(HwOp::FloatPin(UsbPin::Dp));
        usb.push(HwOp::FloatPin(UsbPin::Dm));
        usb.push(HwOp::EnableAndReset);
        let afio = match vdd {
            UsbVoltage::V33 => AfioUsb {
                udm_pue: 0b00,
                udp_pue: 0b11,
                usb_phy_v33: true,
                usb_ioen: true,
            },
            UsbVoltage::V5 => AfioUsb {
                udm_pue: 0b00,
                udp_pue: 0b10,
                usb_phy_v33: false,
                usb_ioen: true,
            },
        };
        usb.push(HwOp::ModifyAfio(afio));
        usb.push(HwOp::WriteDevAd(0));
        usb.push(
            HwOp::WriteUsbCtrl(UsbCtrl { dev_pu_en: true, int_busy: true, dma_en: true }),
        );
        usb.push(HwOp::WriteUdevCtrl(UdevCtrl { pd_dis: true, port_en: true }));
        usb.push(HwOp::WriteIntEn(IntEn { bus_rst: true, transfer: true, suspend: true }));
        let driver = Driver {
            alloc: [EndpointData {
                ep_type: EndpointType::Bulk,
                used_in: false,
                used_out: false,
            };EP_COUNT],
        };
        assert(driver@ =~= fresh(EP_COUNT));
        driver
    }

    /// Whether endpoint `index` can still be allocated.
    pub fn is_endpoint_available(&self, index: usize) -> (r: bool)
        ensures
            r == available(self@, index as int),
    {
        index >= 1 && index != 4 && index < EP_COUNT && !self.alloc[index].used_in
            && !self.alloc[index].used_out
    }

    /// The lowest available endpoint.
    fn find_available(&self) -> (r: Option<usize>)
        requires
            self.wf(),
        ensures
            first_available(self@, 1) == match r {
                Some(index) => Some(index as int),
                None => None,
            },
            r matches Some(index) ==> available(self@, index as int),
    {
        let mut index: usize = 1;
        while index < EP_COUNT
            invariant
                1 <= index <= EP_COUNT,
                self.wf(),
                first_available(self@, 1) == first_available(self@, index as int),
            decreases EP_COUNT - index,
        {
            if self.is_endpoint_available(index) {
                return Some(index);
            }
            index += 1;
        }
        None
    }

    /// Allocates an endpoint of direction `D`: the one that `ep_addr` names, or any.
    /// Fails if it is taken, or none is left, or the packets are too large.
    pub fn alloc_endpoint<D: Dir>(
        &mut self,
        ep_type: EndpointType,
        ep_addr: Option<EndpointAddress>,
        max_packet_size: u16,
        interval_ms: u8,
    ) -> (r: Result<Endpoint<D, EP_COUNT>, EndpointAllocError>)
        requires
            old(self).wf(),
        ensures
            final(self).wf(),
            r is Ok <==> max_packet_size <= MAX_PACKET_SIZE && alloc_target(
                old(self)@,
                ep_addr,
            ) is Some,
            r matches Ok(ep) ==> {
                let index = alloc_target(old(self)@, ep_addr)->0;
                &&& ep.wf()
                &&& ep@ == (EndpointInfo {
                    addr: EndpointAddress::spec_from_parts(index as usize, D::spec_dir()),
                    ep_type,
                    max_packet_size,
                    interval_ms,
                })
                &&& ep@.addr.spec_index() == index
                &&& final(self)@ == old(self)@.update(
                    index,
                    EndpointData::allocated(ep_type, D::spec_dir()),
                )
            },
            r is Err ==> final(self)@ == old(self)@,
            alloc_info(
                old(self)@,
                D::spec_dir(),
                ep_type,
                ep_addr,
                max_packet_size,
                interval_ms,
            ) == match r {
                Ok(ep) => Some(ep@),
                Err(_) => None,
            },
            final(self)@ == alloc_after(
                old(self)@,
                D::spec_dir(),
                ep_type,
                ep_addr,
                max_packet_size,
            ),
    {
        if max_packet_size > MAX_PACKET_SIZE {
            return Err(EndpointAllocError);
        }
        let index: usize = match ep_addr {
            Some(addr) => if self.is_endpoint_available(addr.index()) {
                addr.index()
            } else {
                return Err(EndpointAllocError);
            },
            None => match self.find_available() {
                Some(index) => index,
                None => {
                    return Err(EndpointAllocError);
                },
            },
        };
        let mut data: EndpointData = self.alloc[index];
        data.ep_type = ep_type;
        match D::dir() {
            Direction::In => {
                data.used_in = true;
            },
            Direction::Out => {
                data.used_out = true;
            },
        }
        self.alloc[index] = data;
        Ok(Endpoint::new(index, ep_type, max_packet_size, interval_ms))
    }

    /// Allocates an endpoint that sends to the host.
    pub fn alloc_endpoint_in(
        &mut self,
        ep_type: EndpointType,
        ep_addr: Option<EndpointAddress>,
        max_packet_size: u16,
        interval_ms: u8,
    ) -> (r: Result<Endpoint<In, EP_COUNT>, EndpointAllocError>)
        requires
            old(self).wf(),
        ensures
            final(self).wf(),
            r is Ok <==> max_packet_size <= MAX_PACKET_SIZE && alloc_target(
                old(self)@,
                ep_addr,
            ) is Some,
            r matches Ok(ep) ==> {
                let index = alloc_target(old(self)@, ep_addr)->0;
                &&& ep.wf()
                &&& ep@ == (EndpointInfo {
                    addr: EndpointAddress::spec_from_parts(index as usize, Direction::In),
                    ep_type,
                    max_packet_size,
                    interval_ms,
                })
                &&& ep@.addr.spec_index() == index
                &&& final(self)@ == old(self)@.update(
                    index,
                    EndpointData::allocated(ep_type, Direction::In),
                )
            },
            r is Err ==> final(self)@ == old(self)@,
            alloc_info(
                old(self)@,
                Direction::In,
                ep_type,
                ep_addr,
                max_packet_size,
                interval_ms,
            ) == match r {
                Ok(ep) => Some(ep@),
                Err(_) => None,
            },
            final(self)@ == alloc_after(
                old(self)@,
                Direction::In,
                ep_type,
                ep_addr,
                max_packet_size,
            ),
    {
        self.alloc_endpoint(ep_type, ep_addr, max_packet_size, interval_ms)
    }

    /// Allocates an endpoint that receives from the host.
    pub fn alloc_endpoint_out(
        &mut self,
        ep_type: EndpointType,
        ep_addr: Option<EndpointAddress>,
        max_packet_size: u16,
        interval_ms: u8,
    ) -> (r: Result<Endpoint<Out, EP_COUNT>, EndpointAllocError>)
        requires
            old(self).wf(),
        ensures
            final(self).wf(),
            r is Ok <==> max_packet_size <= MAX_PACKET_SIZE && alloc_target(
                old(self)@,
                ep_addr,
            ) is Some,
            r matches Ok(ep) ==> {
                let index = alloc_target(old(self)@, ep_addr)->0;
                &&& ep.wf()
                &&& ep@ == (EndpointInfo {
                    addr: EndpointAddress::spec_from_parts(index as usize, Direction::Out),
                    ep_type,
                    max_packet_size,
                    interval_ms,
                })
                &&& ep@.addr.spec_index() == index
                &&& final(self)@ == old(self)@.update(
                    index,
                    EndpointData::allocated(ep_type, Direction::Out),
                )
            },
            r is Err ==> final(self)@ == old(self)@,
            alloc_info(
                old(self)@,
                Direction::Out,
                ep_type,
                ep_addr,
                max_packet_size,
                interval_ms,
            ) == match r {
                Ok(ep) => Some(ep@),
                Err(_) => None,
            },
            final(self)@ == alloc_after(
                old(self)@,
                Direction::Out,
                ep_type,
                ep_addr,
                max_packet_size,
            ),
    {
        self.alloc_endpoint(ep_type, ep_addr, max_packet_size, interval_ms)
    }

    /// Sets the allocated endpoints up and lets the interrupt in.
    pub fn start(self, usb: &mut Usbd, control_max_packet_size: u16) -> (r: (
        Bus<EP_COUNT>,
        ControlPipe,
    ))
        requires
            self.wf(),
        ensures
            final(usb)@ == old(usb)@ + start_ops(self@),
            r.0@ == false,
            r.1@ == control_max_packet_size,
    {
        let mut index: usize = 1;
        while index < EP_COUNT
            invariant
                self.wf(),
                1 <= index <= EP_COUNT,
                usb@ == old(usb)@ + endpoints_start_ops(self@, index as int),
            decreases EP_COUNT - index,
        {
            let ep: EndpointData = self.alloc[index];
            if index != 4 && (ep.used_in || ep.used_out) {
                usb.push(
                    HwOp::WriteDma(ep_dma::<EP_COUNT>(index), ep_buf_ptr::<EP_COUNT>(index)),
                );
                usb.push(
                    HwOp::WriteCtrl(
                        ep_ctrl::<EP_COUNT>(index),
                        UepCtrl { t_tog: false, r_tog: false, t_res: RES_NAK, r_res: RES_NAK },
                    ),
                );
                let dir = if ep.used_in {
                    Direction::In
                } else {
                    Direction::Out
                };
                usb.push(HwOp::StoreCut { index, dir, value: false });
                enable_ep_mode::<EP_COUNT>(usb, index, ep.used_in, ep.used_out);
            }
            index += 1;
        }
        usb.push(HwOp::WriteDma(DmaReg::Uep0123(0), ep_buf_ptr::<EP_COUNT>(0)));
        usb.push(
            HwOp::WriteCtrl(
                CtrlReg::Uep01234(0),
                UepCtrl { t_tog: false, r_tog: false, t_res: RES_NAK, r_res: RES_ACK },
            ),
        );
        usb.push(HwOp::StoreCut { index: 0, dir: Direction::In, value: false });
        usb.push(HwOp::StoreCut { index: 0, dir: Direction::Out, value: false });
        usb.push(HwOp::UnpendInterrupt);
        usb.push(HwOp::EnableInterrupt);
        usb.push(HwOp::Wake(WakerId::Bus));
        (Bus::new(), ControlPipe::new(control_max_packet_size))
    }
}

} // verus!
