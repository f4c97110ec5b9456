//! The peripheral as the driver sees it: the values of its register fields, the
//! registers that come in per-endpoint groups, and the operations that the
//! driver asks for.
//!
//! The driver never touches the hardware itself. It is handed what was read from
//! the registers and appends to a [`Usbd`] the operations that follow from it;
//! whoever owns the hardware performs them in that order.

use crate::usb::Direction;
use vstd::prelude::*;

verus! {

/// Largest packet at full speed, in bytes. Also the size of a DMA buffer.
pub const MAX_PACKET_SIZE: u16 = 64;

/// Response code: take part in the transfer.
pub const RES_ACK: u8 = 0b00;

/// Response code: make the host wait.
pub const RES_NAK: u8 = 0b10;

/// Response code: refuse.
pub const RES_STALL: u8 = 0b11;

/// `UEPn_CTRL`: how an endpoint answers the host.
#[derive(Clone, Copy, Debug, PartialEq, Eq, Structural)]
pub struct UepCtrl {
    /// Data toggle of the next IN packet (`true` is DATA1).
    pub t_tog: bool,
    /// Data toggle expected of the next OUT packet.
    pub r_tog: bool,
    /// Response code to IN tokens.
    pub t_res: u8,
    /// Response code to OUT tokens.
    pub r_res: u8,
}

/// A read-modify-write of a `UEPn_CTRL`: which toggles are flipped, which
/// response codes are replaced.
#[derive(Clone, Copy, Debug, PartialEq, Eq, Structural)]
pub struct CtrlUpdate {
    pub flip_t_tog: bool,
    pub flip_r_tog: bool,
    pub t_res: Option<u8>,
    pub r_res: Option<u8>,
}

impl CtrlUpdate {
    /// The register value that the update makes of `cur`.
    pub open spec fn spec_apply(self, cur: UepCtrl) -> UepCtrl {
        UepCtrl {
            t_tog: cur.t_tog != self.flip_t_tog,
            r_tog: cur.r_tog != self.flip_r_tog,
            t_res: match self.t_res {
                Some(res) => res,
                None => cur.t_res,
            },
            r_res: match self.r_res {
                Some(res) => res,
                None => cur.r_res,
            },
        }
    }

    /// Computes the register value that the update makes of `cur`.
    pub fn apply(&self, cur: UepCtrl) -> (next: UepCtrl)
        ensures
            next == self.spec_apply(cur),
    {
        UepCtrl {
            t_tog: if self.flip_t_tog {
                !cur.t_tog
            } else {
                cur.t_tog
            },
            r_tog: if self.flip_r_tog {
                !cur.r_tog
            } else {
                cur.r_tog
            },
            t_res: match self.t_res {
                Some(res) => res,
                None => cur.t_res,
            },
            r_res: match self.r_res {
                Some(res) => res,
                None => cur.r_res,
            },
        }
    }

    /// Replaces the response code to IN tokens.
    pub open spec fn spec_set_t_res(res: u8) -> CtrlUpdate {
        CtrlUpdate { flip_t_tog: false, flip_r_tog: false, t_res: Some(res), r_res: None }
    }

    /// Replaces the response code to OUT tokens.
    pub open spec fn spec_set_r_res(res: u8) -> CtrlUpdate {
        CtrlUpdate { flip_t_tog: false, flip_r_tog: false, t_res: None, r_res: Some(res) }
    }

    /// The update that replaces the response code to IN tokens.
    pub fn set_t_res(res: u8) -> (update: CtrlUpdate)
        ensures
            update == CtrlUpdate::spec_set_t_res(res),
    {
        CtrlUpdate { flip_t_tog: false, flip_r_tog: false, t_res: Some(res), r_res: None }
    }

    /// The update that replaces the response code to OUT tokens.
    pub fn set_r_res(res: u8) -> (update: CtrlUpdate)
        ensures
            update == CtrlUpdate::spec_set_r_res(res),
    {
        CtrlUpdate { flip_t_tog: false, flip_r_tog: false, t_res: None, r_res: Some(res) }
    }
}

/// `INT_FG`: interrupt flags. A flag is cleared by writing 1 to it.
#[derive(Clone, Copy, Debug, PartialEq, Eq, Structural)]
pub struct IntFg {
    pub transfer: bool,
    pub bus_rst: bool,
    pub suspend: bool,
    /// The flags that the driver does not act on, in their places.
    pub rest: u8,
}

/// `CTRL`: overall control of the peripheral.
#[derive(Clone, Copy, Debug, PartialEq, Eq, Structural)]
pub struct UsbCtrl {
    pub dev_pu_en: bool,
    pub int_busy: bool,
    pub dma_en: bool,
}

/// `UDEV_CTRL`: control of the device port.
#[derive(Clone, Copy, Debug, PartialEq, Eq, Structural)]
pub struct UdevCtrl {
    pub pd_dis: bool,
    pub port_en: bool,
}

/// `INT_EN`: which interrupts are raised.
#[derive(Clone, Copy, Debug, PartialEq, Eq, Structural)]
pub struct IntEn {
    pub bus_rst: bool,
    pub transfer: bool,
    pub suspend: bool,
}

/// The fields of `AFIO_CTLR` that belong to the USB pins and PHY.
#[derive(Clone, Copy, Debug, PartialEq, Eq, Structural)]
pub struct AfioUsb {
    /// Pull-up of D-.
    pub udm_pue: u8,
    /// Pull-up of D+.
    pub udp_pue: u8,
    /// PHY drives the full 3.3 V swing.
    pub usb_phy_v33: bool,
    /// The pins belong to the USB PHY rather than to the GPIO block.
    pub usb_ioen: bool,
}

/// A `UEPn_CTRL` register, by group and place in the group.
#[derive(Clone, Copy, Debug, PartialEq, Eq, Structural)]
pub enum CtrlReg {
    Uep01234(usize),
    Uep567(usize),
}

/// A `UEPn_T_LEN` register (length of the next IN packet).
#[derive(Clone, Copy, Debug, PartialEq, Eq, Structural)]
pub enum TLenReg {
    Uep01234(usize),
    Uep567(usize),
}

/// A `UEPn_DMA` register (address of the endpoint's buffer).
#[derive(Clone, Copy, Debug, PartialEq, Eq, Structural)]
pub enum DmaReg {
    Uep0123(usize),
    Uep567(usize),
}

/// A register that holds the TX_EN and RX_EN bits of several endpoints.
#[derive(Clone, Copy, Debug, PartialEq, Eq, Structural)]
pub enum ModeReg {
    Uep4_1,
    Uep2_3,
    Uep567,
}

/// One of the DMA buffers. Endpoint 4 has none of its own.
#[derive(Clone, Copy, Debug, PartialEq, Eq, Structural)]
pub enum EpBuf {
    Buf0,
    Buf1,
    Buf2,
    Buf3,
    Buf5,
    Buf6,
    Buf7,
}

/// The pins of the bus.
#[derive(Clone, Copy, Debug, PartialEq, Eq, Structural)]
pub enum UsbPin {
    Dp,
    Dm,
}

/// Where a waiting task leaves its waker.
#[derive(Clone, Copy, Debug, PartialEq, Eq, Structural)]
pub enum WakerId {
    /// For bus events.
    Bus,
    /// For IN transfers of an endpoint.
    In(usize),
    /// For OUT transfers of an endpoint.
    Out(usize),
}

/// What the interrupt handler tells the bus task.
#[derive(Clone, Copy, Debug, PartialEq, Eq, Structural)]
pub enum IrqFlag {
    Reset,
    Suspend,
    Resume,
}

/// An operation on the hardware or on the state that interrupt handler and tasks
/// share.
///
/// `Write...` sets the fields it does not name to zero, `Modify...` keeps them.
#[derive(Clone, Copy, Debug, PartialEq, Eq, Structural)]
pub enum HwOp {
    /// Makes a pin an input without a pull resistor.
    FloatPin(UsbPin),
    /// Turns on the clock of the peripheral and resets it.
    EnableAndReset,
    ModifyAfio(AfioUsb),
    WriteUsbCtrl(UsbCtrl),
    WriteUdevCtrl(UdevCtrl),
    WriteIntEn(IntEn),
    WriteIntFg(IntFg),
    /// Writes the device address.
    WriteDevAd(u8),
    /// Changes the device address.
    ModifyDevAd(u8),
    WriteCtrl(CtrlReg, UepCtrl),
    ModifyCtrl(CtrlReg, CtrlUpdate),
    WriteTLen(TLenReg, u8),
    /// Writes the address of a buffer.
    WriteDma(DmaReg, EpBuf),
    /// Sets the bits of place `n` that are `true` here; the others stay.
    ModifyMode { reg: ModeReg, n: usize, tx_en: bool, rx_en: bool },
    /// Stores one byte of a DMA buffer.
    StoreByte { buf: EpBuf, offset: usize, value: u8 },
    /// Keeps the length of the last OUT packet of an endpoint.
    StoreOutLen { index: usize, len: u16 },
    /// Sets whether a SETUP packet has arrived that was not picked up yet.
    StoreSetup(bool),
    /// Sets whether a bus reset has cut the transfers of one direction of an
    /// endpoint.
    StoreCut { index: usize, dir: Direction, value: bool },
    StoreIrq(IrqFlag, bool),
    Wake(WakerId),
    /// Drops a pending interrupt request.
    UnpendInterrupt,
    EnableInterrupt,
}

/// The operations asked for so far, oldest first.
#[derive(Debug)]
pub struct Usbd {
    ops: Vec<HwOp>,
}

impl Usbd {
    pub closed spec fn view(&self) -> Seq<HwOp> {
        self.ops@
    }

    pub fn new() -> (usb: Usbd)
        ensures
            usb@ == Seq::<HwOp>::empty(),
    {
        Usbd { ops: Vec::new() }
    }

    /// Asks for one more operation.
    pub fn push(&mut self, op: HwOp)
        ensures
            final(self)@ == old(self)@.push(op),
    {
        self.ops.push(op);
    }

    /// Hands the operations over to be performed.
    pub fn into_ops(self) -> (ops: Vec<HwOp>)
        ensures
            ops@ == self@,
    {
        self.ops
    }
}

} // verus!
