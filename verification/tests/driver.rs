//! The driver on a simulated peripheral.

use std::collections::{HashMap, HashSet};

use usbfs::bus::{Bus, IrqFlags};
use usbfs::control::{ControlLook, ControlPipe, Stage, Step};
use usbfs::driver::{Driver, UsbVoltage};
use usbfs::endpoint::Endpoint;
use usbfs::interrupt::{
    handle_suspend, InterruptHandler, InterruptStatus, Served, TOKEN_IN, TOKEN_OUT, TOKEN_SETUP,
};
use usbfs::regs::{
    AfioUsb, CtrlReg, DmaReg, EpBuf, HwOp, IntEn, IntFg, IrqFlag, ModeReg, TLenReg, UdevCtrl,
    UepCtrl, UsbCtrl, UsbPin, Usbd, WakerId, RES_ACK, RES_NAK, RES_STALL,
};
use usbfs::usb::{
    Direction, EndpointAddress, EndpointAllocError, EndpointError, EndpointType, Event, In, Out, Poll,
    Unsupported,
};

const REST: UepCtrl = UepCtrl { t_tog: false, r_tog: false, t_res: RES_NAK, r_res: RES_NAK };
const READY0: UepCtrl = UepCtrl { t_tog: false, r_tog: false, t_res: RES_NAK, r_res: RES_ACK };
const NO_FLAGS: IntFg = IntFg { transfer: false, bus_rst: false, suspend: false, rest: 0 };
const ALL_BUFS: [EpBuf; 7] = [
    EpBuf::Buf0,
    EpBuf::Buf1,
    EpBuf::Buf2,
    EpBuf::Buf3,
    EpBuf::Buf5,
    EpBuf::Buf6,
    EpBuf::Buf7,
];

/// A peripheral in memory.
struct Sim {
    floating: Vec<UsbPin>,
    afio: Option<AfioUsb>,
    usb_ctrl: UsbCtrl,
    udev_ctrl: UdevCtrl,
    int_en: IntEn,
    int_fg: IntFg,
    dev_addr: u8,
    ctrl: HashMap<usize, UepCtrl>,
    t_len: HashMap<usize, u8>,
    dma: HashMap<usize, EpBuf>,
    mode: Vec<(ModeReg, usize, bool, bool)>,
    buffers: Vec<[u8; 64]>,
    out_len: [u16; 8],
    setup: bool,
    cut_in: [bool; 8],
    cut_out: [bool; 8],
    irq: IrqFlags,
    woken: HashSet<String>,
    interrupt_enabled: bool,
}

fn ctrl_no(reg: CtrlReg) -> usize {
    match reg {
        CtrlReg::Uep01234(n) => n,
        CtrlReg::Uep567(n) => n + 5,
    }
}

fn buf_no(buf: EpBuf) -> usize {
    ALL_BUFS.iter().position(|b| *b == buf).unwrap()
}

impl Sim {
    fn new() -> Sim {
        Sim {
            floating: Vec::new(),
            afio: None,
            usb_ctrl: UsbCtrl { dev_pu_en: false, int_busy: false, dma_en: false },
            udev_ctrl: UdevCtrl { pd_dis: false, port_en: false },
            int_en: IntEn { bus_rst: false, transfer: false, suspend: false },
            int_fg: NO_FLAGS,
            dev_addr: 0x55,
            ctrl: HashMap::new(),
            t_len: HashMap::new(),
            dma: HashMap::new(),
            mode: Vec::new(),
            buffers: vec![[0u8; 64]; 7],
            out_len: [0; 8],
            setup: false,
            cut_in: [false; 8],
            cut_out: [false; 8],
            irq: IrqFlags { reset: false, suspend: false, resume: false },
            woken: HashSet::new(),
            interrupt_enabled: false,
        }
    }

    fn ctrl(&self, index: usize) -> UepCtrl {
        self.ctrl.get(&index).copied().unwrap_or(UepCtrl {
            t_tog: false,
            r_tog: false,
            t_res: 0,
            r_res: 0,
        })
    }

    fn perform(&mut self, usb: Usbd) {
        for op in usb.into_ops() {
            match op {
                HwOp::FloatPin(pin) => self.floating.push(pin),
                HwOp::EnableAndReset => self.int_fg = NO_FLAGS,
                HwOp::ModifyAfio(v) => self.afio = Some(v),
                HwOp::WriteUsbCtrl(v) => self.usb_ctrl = v,
                HwOp::WriteUdevCtrl(v) => {
                    self.udev_ctrl = UdevCtrl {
                        pd_dis: v.pd_dis,
                        port_en: v.port_en && self.usb_ctrl.dev_pu_en,
                    }
                }
                HwOp::WriteIntEn(v) => self.int_en = v,
                HwOp::WriteIntFg(v) => {
                    self.int_fg = IntFg {
                        transfer: self.int_fg.transfer && !v.transfer,
                        bus_rst: self.int_fg.bus_rst && !v.bus_rst,
                        suspend: self.int_fg.suspend && !v.suspend,
                        rest: self.int_fg.rest & !v.rest,
                    }
                }
                HwOp::WriteDevAd(addr) | HwOp::ModifyDevAd(addr) => self.dev_addr = addr,
                HwOp::WriteCtrl(reg, v) => {
                    self.ctrl.insert(ctrl_no(reg), v);
                }
                HwOp::ModifyCtrl(reg, update) => {
                    let next = update.apply(self.ctrl(ctrl_no(reg)));
                    self.ctrl.insert(ctrl_no(reg), next);
                }
                HwOp::WriteTLen(reg, len) => {
                    let n = match reg {
                        TLenReg::Uep01234(n) => n,
                        TLenReg::Uep567(n) => n + 5,
                    };
                    self.t_len.insert(n, len);
                }
                HwOp::WriteDma(reg, buf) => {
                    let n = match reg {
                        DmaReg::Uep0123(n) => n,
                        DmaReg::Uep567(n) => n + 5,
                    };
                    self.dma.insert(n, buf);
                }
                HwOp::ModifyMode { reg, n, tx_en, rx_en } => self.mode.push((reg, n, tx_en, rx_en)),
                HwOp::StoreByte { buf, offset, value } => {
                    self.buffers[buf_no(buf)][offset] = value
                }
                HwOp::StoreOutLen { index, len } => self.out_len[index] = len,
                HwOp::StoreSetup(v) => self.setup = v,
                HwOp::StoreCut { index, dir: Direction::In, value } => self.cut_in[index] = value,
                HwOp::StoreCut { index, dir: Direction::Out, value } => self.cut_out[index] = value,
                HwOp::StoreIrq(IrqFlag::Reset, v) => self.irq.reset = v,
                HwOp::StoreIrq(IrqFlag::Suspend, v) => self.irq.suspend = v,
                HwOp::StoreIrq(IrqFlag::Resume, v) => self.irq.resume = v,
                HwOp::Wake(id) => {
                    self.woken.insert(format!("{:?}", id));
                }
                HwOp::UnpendInterrupt => {}
                HwOp::EnableInterrupt => self.interrupt_enabled = true,
            }
        }
    }

    fn look(&self) -> ControlLook {
        ControlLook {
            ctrl: self.ctrl(0),
            setup: self.setup,
            cut_in: self.cut_in[0],
            cut_out: self.cut_out[0],
            out_len: self.out_len[0],
        }
    }

    /// Carries a stage of a control transfer on until it waits (`None`) or is done.
    fn carry_on<R>(
        &mut self,
        stage: &mut Stage,
        mut step: impl FnMut(&mut Stage, &mut Usbd, ControlLook, &[u8; 64]) -> Step<R>,
    ) -> Option<R> {
        loop {
            let mut usb = Usbd::new();
            let mem = self.buffers[0];
            let next = step(stage, &mut usb, self.look(), &mem);
            self.perform(usb);
            match next {
                Step::Again => {}
                Step::Wait => return None,
                Step::Done(result) => return Some(result),
            }
        }
    }

    fn woke(&self, id: WakerId) -> bool {
        self.woken.contains(&format!("{:?}", id))
    }

    fn interrupt<const N: usize>(&mut self, token: u8, endp: u8, suspended: bool, rx_len: u16) {
        let status = InterruptStatus { int_fg: self.int_fg, token, endp, rx_len };
        let mut usb = Usbd::new();
        let served = InterruptHandler::<N>::on_interrupt(&mut usb, status);
        self.perform(usb);
        if served == Served::SuspendChanged {
            assert!(!self.int_fg.suspend);
            let mut usb = Usbd::new();
            handle_suspend(&mut usb, suspended);
            self.perform(usb);
        }
    }

    fn transfer<const N: usize>(&mut self, token: u8, endp: u8, rx_len: u16) {
        self.int_fg.transfer = true;
        self.interrupt::<N>(token, endp, false, rx_len);
        assert!(!self.int_fg.transfer);
    }

    /// The host sends a packet.
    fn host_out(&mut self, index: usize, buf: EpBuf, data: &[u8]) {
        assert_eq!(self.ctrl(index).r_res, RES_ACK);
        self.buffers[buf_no(buf)][..data.len()].copy_from_slice(data);
        self.transfer::<8>(TOKEN_OUT, index as u8, data.len() as u16);
    }

    /// The host fetches a packet.
    fn host_in(&mut self, index: usize, buf: EpBuf) -> Vec<u8> {
        assert_eq!(self.ctrl(index).t_res, RES_ACK);
        let len = self.t_len[&index] as usize;
        let data = self.buffers[buf_no(buf)][..len].to_vec();
        self.transfer::<8>(TOKEN_IN, index as u8, 0);
        data
    }

    /// The host starts a request.
    fn host_setup(&mut self, packet: [u8; 8]) {
        self.buffers[0][..8].copy_from_slice(&packet);
        self.transfer::<8>(TOKEN_SETUP, 0, 8);
    }
}

fn addr(bits: u8) -> Option<EndpointAddress> {
    Some(EndpointAddress { bits })
}

fn fresh<const N: usize>() -> (Sim, Driver<N>) {
    let mut sim = Sim::new();
    let mut usb = Usbd::new();
    let driver = Driver::<N>::new(&mut usb, UsbVoltage::V33);
    sim.perform(usb);
    (sim, driver)
}

/// A running driver with an IN endpoint and an OUT endpoint.
fn running() -> (Sim, Endpoint<In, 8>, Endpoint<Out, 8>, Bus<8>, ControlPipe) {
    let (mut sim, mut driver) = fresh::<8>();
    let ep_in = driver.alloc_endpoint_in(EndpointType::Bulk, None, 64, 0).unwrap();
    let ep_out = driver.alloc_endpoint_out(EndpointType::Bulk, addr(0x06), 32, 0).unwrap();
    let mut usb = Usbd::new();
    let (mut bus, pipe) = driver.start(&mut usb, 64);
    bus.endpoint_set_enabled(&mut usb, EndpointAddress { bits: 0x81 }, true);
    bus.endpoint_set_enabled(&mut usb, EndpointAddress { bits: 0x06 }, true);
    sim.perform(usb);
    (sim, ep_in, ep_out, bus, pipe)
}

// Bringing up.

#[test]
fn new_brings_the_port_up_at_3v3() {
    let (sim, _driver) = fresh::<4>();
    assert_eq!(sim.floating, vec![UsbPin::Dp, UsbPin::Dm]);
    assert_eq!(
        sim.afio,
        Some(AfioUsb { udm_pue: 0, udp_pue: 0b11, usb_phy_v33: true, usb_ioen: true })
    );
    assert_eq!(sim.dev_addr, 0);
    assert_eq!(sim.usb_ctrl, UsbCtrl { dev_pu_en: true, int_busy: true, dma_en: true });
    assert_eq!(sim.udev_ctrl, UdevCtrl { pd_dis: true, port_en: true });
    assert_eq!(sim.int_en, IntEn { bus_rst: true, transfer: true, suspend: true });
    assert!(!sim.interrupt_enabled);
}

#[test]
fn new_at_5v_changes_pull_up_and_phy() {
    let mut usb = Usbd::new();
    let _driver = Driver::<4>::new(&mut usb, UsbVoltage::V5);
    let ops = usb.into_ops();
    assert_eq!(
        ops[3],
        HwOp::ModifyAfio(AfioUsb {
            udm_pue: 0,
            udp_pue: 0b10,
            usb_phy_v33: false,
            usb_ioen: true
        })
    );
    assert_eq!(ops.len(), 8);
}

#[test]
fn pull_up_comes_before_port_enable() {
    let mut usb = Usbd::new();
    let _driver = Driver::<4>::new(&mut usb, UsbVoltage::V33);
    let ops = usb.into_ops();
    let pull_up = ops.iter().position(|op| matches!(op, HwOp::WriteUsbCtrl(_))).unwrap();
    let port = ops.iter().position(|op| matches!(op, HwOp::WriteUdevCtrl(_))).unwrap();
    assert!(pull_up < port);
}

// Allocation.

#[test]
fn three_endpoints_are_enough_for_a_serial_port() {
    let (_sim, mut driver) = fresh::<4>();
    let notify = driver.alloc_endpoint_in(EndpointType::Interrupt, None, 8, 255).unwrap();
    let rx = driver.alloc_endpoint_out(EndpointType::Bulk, None, 64, 0).unwrap();
    let tx = driver.alloc_endpoint_in(EndpointType::Bulk, None, 64, 0).unwrap();
    assert_eq!(notify.info().addr.bits, 0x81);
    assert_eq!(rx.info().addr.bits, 0x02);
    assert_eq!(tx.info().addr.bits, 0x83);
    assert_eq!(notify.info().ep_type, EndpointType::Interrupt);
    assert_eq!(notify.info().max_packet_size, 8);
    assert_eq!(notify.info().interval_ms, 255);
    assert_eq!(
        driver.alloc_endpoint_in(EndpointType::Bulk, None, 64, 0).err(),
        Some(EndpointAllocError)
    );
}

#[test]
fn larger_table_has_six_endpoints() {
    let (_sim, mut driver) = fresh::<8>();
    let mut bits = Vec::new();
    for _ in 0..6 {
        bits.push(
            driver.alloc_endpoint_out(EndpointType::Bulk, None, 64, 0).unwrap().info().addr.bits,
        );
    }
    assert_eq!(bits, vec![1, 2, 3, 5, 6, 7]);
    assert!(driver.alloc_endpoint_out(EndpointType::Bulk, None, 64, 0).is_err());
}

#[test]
fn named_endpoint_is_given_by_number() {
    let (_sim, mut driver) = fresh::<4>();
    let ep = driver.alloc_endpoint_out(EndpointType::Bulk, addr(0x83), 64, 0).unwrap();
    assert_eq!(ep.info().addr.bits, 0x03);
    assert!(!driver.is_endpoint_available(3));
    assert!(driver.is_endpoint_available(1));
}

#[test]
fn endpoint_number_serves_one_direction() {
    let (_sim, mut driver) = fresh::<4>();
    driver.alloc_endpoint_in(EndpointType::Bulk, addr(0x82), 64, 0).unwrap();
    assert!(driver.alloc_endpoint_out(EndpointType::Bulk, addr(0x02), 64, 0).is_err());
    assert!(driver.alloc_endpoint_in(EndpointType::Bulk, addr(0x82), 64, 0).is_err());
}

#[test]
fn endpoints_0_and_4_and_unknown_ones_are_refused() {
    let (_sim, mut small) = fresh::<4>();
    let (_sim, mut large) = fresh::<8>();
    for bits in [0x80u8, 0x84, 0x85, 0x8f, 0xff] {
        assert!(small.alloc_endpoint_in(EndpointType::Bulk, addr(bits), 64, 0).is_err());
    }
    for bits in [0x80u8, 0x84, 0x88, 0xff] {
        assert!(large.alloc_endpoint_in(EndpointType::Bulk, addr(bits), 64, 0).is_err());
    }
    assert!(large.alloc_endpoint_in(EndpointType::Bulk, addr(0x85), 64, 0).is_ok());
}

#[test]
fn packets_over_64_bytes_are_refused() {
    let (_sim, mut driver) = fresh::<4>();
    assert!(driver.alloc_endpoint_in(EndpointType::Bulk, None, 65, 0).is_err());
    assert!(driver.is_endpoint_available(1));
    assert!(driver.alloc_endpoint_in(EndpointType::Bulk, None, 64, 0).is_ok());
}

#[test]
fn alloc_endpoint_takes_its_direction_from_the_type() {
    let (_sim, mut driver) = fresh::<4>();
    let ep: Endpoint<In, 4> =
        driver.alloc_endpoint(EndpointType::Bulk, addr(0x02), 64, 0).unwrap();
    assert_eq!(ep.info().addr.bits, 0x82);
}

#[test]
fn two_endpoints_never_coincide() {
    let (_sim, mut driver) = fresh::<4>();
    let a = driver.alloc_endpoint_in(EndpointType::Bulk, addr(0x82), 64, 0).unwrap();
    let b = driver.alloc_endpoint_in(EndpointType::Bulk, None, 64, 0).unwrap();
    let c = driver.alloc_endpoint_in(EndpointType::Bulk, None, 64, 0).unwrap();
    assert_eq!(a.info().addr.bits, 0x82);
    assert_eq!(b.info().addr.bits, 0x81);
    assert_eq!(c.info().addr.bits, 0x83);
}

// Start.

#[test]
fn start_sets_up_what_was_allocated() {
    let (mut sim, mut driver) = fresh::<8>();
    driver.alloc_endpoint_out(EndpointType::Bulk, addr(0x02), 64, 0).unwrap();
    driver.alloc_endpoint_in(EndpointType::Bulk, addr(0x87), 64, 0).unwrap();
    let mut usb = Usbd::new();
    let (_bus, pipe) = driver.start(&mut usb, 16);
    sim.perform(usb);
    assert_eq!(pipe.max_packet_size(), 16);
    assert_eq!(sim.dma.len(), 3);
    assert_eq!(sim.dma[&0], EpBuf::Buf0);
    assert_eq!(sim.dma[&2], EpBuf::Buf2);
    assert_eq!(sim.dma[&7], EpBuf::Buf7);
    assert_eq!(sim.ctrl.len(), 3);
    assert_eq!(sim.ctrl(0), READY0);
    assert_eq!(sim.ctrl(2), REST);
    assert_eq!(sim.ctrl(7), REST);
    assert_eq!(
        sim.mode,
        vec![(ModeReg::Uep2_3, 0, false, true), (ModeReg::Uep567, 2, true, false)]
    );
    assert!(sim.interrupt_enabled);
    assert!(sim.woke(WakerId::Bus));
}

#[test]
fn start_lets_the_interrupt_in_last() {
    let (_sim, driver) = fresh::<4>();
    let mut usb = Usbd::new();
    let _ = driver.start(&mut usb, 64);
    assert_eq!(
        usb.into_ops(),
        vec![
            HwOp::WriteDma(DmaReg::Uep0123(0), EpBuf::Buf0),
            HwOp::WriteCtrl(CtrlReg::Uep01234(0), READY0),
            HwOp::StoreCut { index: 0, dir: Direction::In, value: false },
            HwOp::StoreCut { index: 0, dir: Direction::Out, value: false },
            HwOp::UnpendInterrupt,
            HwOp::EnableInterrupt,
            HwOp::Wake(WakerId::Bus),
        ]
    );
}

// Interrupts.

#[test]
fn setup_packet_makes_endpoint_0_wait_at_data1() {
    let mut sim = Sim::new();
    sim.host_setup([1, 2, 3, 4, 5, 6, 7, 8]);
    assert_eq!(
        sim.ctrl(0),
        UepCtrl { t_tog: true, r_tog: true, t_res: RES_NAK, r_res: RES_NAK }
    );
    assert!(sim.setup);
    assert!(sim.woke(WakerId::Out(0)));
    assert!(!sim.woke(WakerId::In(0)));
}

#[test]
fn setup_token_counts_whatever_the_endpoint() {
    let mut sim = Sim::new();
    sim.transfer::<4>(TOKEN_SETUP, 9, 8);
    assert!(sim.setup);
}

#[test]
fn in_completion_flips_the_toggle() {
    let mut sim = Sim::new();
    sim.ctrl.insert(3, UepCtrl { t_tog: false, r_tog: true, t_res: RES_ACK, r_res: RES_STALL });
    sim.transfer::<4>(TOKEN_IN, 3, 0);
    assert_eq!(
        sim.ctrl(3),
        UepCtrl { t_tog: true, r_tog: true, t_res: RES_NAK, r_res: RES_STALL }
    );
    sim.transfer::<4>(TOKEN_IN, 3, 0);
    assert!(!sim.ctrl(3).t_tog);
    assert!(sim.woke(WakerId::In(3)));
}

#[test]
fn out_completion_keeps_the_length() {
    let mut sim = Sim::new();
    sim.ctrl.insert(5, UepCtrl { t_tog: true, r_tog: false, t_res: RES_STALL, r_res: RES_ACK });
    sim.transfer::<8>(TOKEN_OUT, 5, 17);
    assert_eq!(sim.out_len[5], 17);
    assert_eq!(
        sim.ctrl(5),
        UepCtrl { t_tog: true, r_tog: true, t_res: RES_STALL, r_res: RES_NAK }
    );
    assert!(sim.woke(WakerId::Out(5)));
    assert_eq!(sim.woken.len(), 1);
}

#[test]
fn foreign_tokens_are_only_acknowledged() {
    for (token, endp) in [(0b01u8, 1u8), (TOKEN_IN, 4), (TOKEN_OUT, 4), (TOKEN_OUT, 15)] {
        let mut sim = Sim::new();
        sim.transfer::<4>(token, endp, 5);
        assert!(sim.ctrl.is_empty());
        assert!(sim.woken.is_empty());
        assert_eq!(sim.out_len, [0; 8]);
    }
}

#[test]
fn endpoint_4_is_ignored_with_the_larger_table_too() {
    for token in [TOKEN_IN, TOKEN_OUT] {
        let mut sim = Sim::new();
        sim.transfer::<8>(token, 4, 5);
        assert!(sim.ctrl.is_empty());
        assert!(sim.woken.is_empty());
        assert_eq!(sim.out_len, [0; 8]);
        sim.transfer::<8>(token, 5, 5);
        assert_eq!(sim.ctrl.len(), 1);
    }
}

#[test]
fn interrupt_serves_one_cause_at_a_time() {
    let mut sim = Sim::new();
    sim.int_fg = IntFg { transfer: true, bus_rst: true, suspend: true, rest: 0x10 };
    sim.interrupt::<4>(0b01, 0, true, 0);
    assert_eq!(sim.int_fg, IntFg { transfer: false, bus_rst: true, suspend: true, rest: 0x10 });
    assert!(!sim.irq.reset);
    sim.interrupt::<4>(0b01, 0, true, 0);
    assert_eq!(sim.int_fg, IntFg { transfer: false, bus_rst: false, suspend: true, rest: 0x10 });
    assert!(sim.irq.reset && !sim.irq.suspend);
    assert!(sim.woke(WakerId::Bus));
    sim.interrupt::<4>(0b01, 0, true, 0);
    assert_eq!(sim.int_fg, IntFg { transfer: false, bus_rst: false, suspend: false, rest: 0x10 });
    assert!(sim.irq.suspend && !sim.irq.resume);
    sim.interrupt::<4>(0b01, 0, true, 0);
    assert_eq!(sim.int_fg, NO_FLAGS);
}

#[test]
fn suspend_flag_without_suspended_bus_is_a_resume() {
    let mut sim = Sim::new();
    sim.int_fg.suspend = true;
    sim.interrupt::<4>(0, 0, false, 0);
    assert!(sim.irq.resume && !sim.irq.suspend && !sim.irq.reset);
}

// Bus.

fn look(sim: &mut Sim, bus: &mut Bus<8>) -> Poll<Event> {
    let mut usb = Usbd::new();
    let event = bus.poll(&mut usb, sim.irq);
    sim.perform(usb);
    event
}

#[test]
fn events_come_in_order_and_once() {
    let (mut sim, _ep_in, _ep_out, mut bus, _pipe) = running();
    assert_eq!(bus.waker(), WakerId::Bus);
    sim.irq = IrqFlags { reset: true, suspend: true, resume: true };
    assert_eq!(look(&mut sim, &mut bus), Poll::Ready(Event::PowerDetected));
    assert_eq!(look(&mut sim, &mut bus), Poll::Ready(Event::Reset));
    assert_eq!(look(&mut sim, &mut bus), Poll::Ready(Event::Resume));
    assert_eq!(look(&mut sim, &mut bus), Poll::Ready(Event::Suspend));
    assert_eq!(look(&mut sim, &mut bus), Poll::Pending);
}

#[test]
fn reset_puts_endpoints_back() {
    let (mut sim, _ep_in, _ep_out, mut bus, _pipe) = running();
    look(&mut sim, &mut bus);
    sim.dev_addr = 9;
    for i in 0..8 {
        let busy = UepCtrl { t_tog: true, r_tog: true, t_res: RES_ACK, r_res: RES_STALL };
        sim.ctrl.insert(i, busy);
    }
    let before4 = sim.ctrl(4);
    sim.woken.clear();
    sim.int_fg.bus_rst = true;
    sim.interrupt::<8>(0, 0, false, 0);
    assert!(sim.woke(WakerId::Bus));
    assert_eq!(look(&mut sim, &mut bus), Poll::Ready(Event::Reset));
    assert_eq!(sim.dev_addr, 0);
    assert_eq!(sim.ctrl(0), READY0);
    for i in [1, 2, 3, 5, 6, 7] {
        assert_eq!(sim.ctrl(i), REST);
    }
    assert_eq!(sim.ctrl(4), before4);
    for i in 0..8 {
        assert!(sim.woke(WakerId::In(i)));
        assert!(sim.woke(WakerId::Out(i)));
    }
    assert!(!sim.irq.reset);
}

#[test]
fn stall_is_set_and_cleared_by_direction() {
    let (mut sim, _ep_in, _ep_out, mut bus, _pipe) = running();
    let in3 = EndpointAddress { bits: 0x83 };
    let out3 = EndpointAddress { bits: 0x03 };
    sim.ctrl.insert(3, REST);
    let mut usb = Usbd::new();
    bus.endpoint_set_stalled(&mut usb, in3, true);
    sim.perform(usb);
    assert_eq!(bus.ctrl_reg(in3), CtrlReg::Uep01234(3));
    assert!(bus.endpoint_is_stalled(in3, sim.ctrl(3)));
    assert!(!bus.endpoint_is_stalled(out3, sim.ctrl(3)));
    assert!(sim.woke(WakerId::In(3)) && !sim.woke(WakerId::Out(3)));
    let mut usb = Usbd::new();
    bus.endpoint_set_stalled(&mut usb, out3, true);
    bus.endpoint_set_stalled(&mut usb, in3, false);
    sim.perform(usb);
    assert!(!bus.endpoint_is_stalled(in3, sim.ctrl(3)));
    assert!(bus.endpoint_is_stalled(out3, sim.ctrl(3)));
    assert_eq!(sim.ctrl(3).t_res, RES_NAK);
    let mut usb = Usbd::new();
    bus.endpoint_set_stalled(&mut usb, out3, false);
    sim.perform(usb);
    assert_eq!(sim.ctrl(3).r_res, RES_ACK);
}

#[test]
fn disabled_endpoints_fail_transfers() {
    let (mut sim, ep_in, ep_out, mut bus, _pipe) = running();
    let mut usb = Usbd::new();
    bus.endpoint_set_enabled(&mut usb, ep_in.info().addr, false);
    bus.endpoint_set_enabled(&mut usb, ep_out.info().addr, false);
    sim.perform(usb);
    assert_eq!(ep_in.wait_enabled(sim.ctrl(1), sim.cut_in[1]), Poll::Pending);
    assert_eq!(ep_out.wait_enabled(sim.ctrl(6), sim.cut_out[6]), Poll::Pending);
    let mut usb = Usbd::new();
    assert_eq!(
        ep_in.write(&mut usb, sim.ctrl(1), false, &[1]),
        Poll::Ready(Err(EndpointError::Disabled))
    );
    let mut buf = [0u8; 4];
    assert_eq!(
        ep_out.read(&mut usb, sim.ctrl(6), false, 2, &[0; 64], &mut buf),
        Poll::Ready(Err(EndpointError::Disabled))
    );
    assert!(usb.into_ops().is_empty());
    let mut usb = Usbd::new();
    bus.endpoint_set_enabled(&mut usb, ep_in.info().addr, true);
    bus.endpoint_set_enabled(&mut usb, ep_out.info().addr, true);
    sim.perform(usb);
    assert_eq!(ep_in.wait_enabled(sim.ctrl(1), sim.cut_in[1]), Poll::Ready(()));
    assert_eq!(ep_out.wait_enabled(sim.ctrl(6), sim.cut_out[6]), Poll::Ready(()));
    assert_eq!(sim.ctrl(1).t_res, RES_NAK);
    assert_eq!(sim.ctrl(6).r_res, RES_ACK);
}

#[test]
fn remote_wakeup_is_not_supported() {
    let (_sim, _ep_in, _ep_out, bus, _pipe) = running();
    assert_eq!(bus.remote_wakeup(), Err(Unsupported));
}

// Transfers.

#[test]
fn wait_places_of_endpoints() {
    let (_sim, ep_in, ep_out, _bus, pipe) = running();
    assert_eq!(ep_in.waker(), WakerId::In(1));
    assert_eq!(ep_out.waker(), WakerId::Out(6));
    assert_eq!(ep_in.ctrl_reg(), CtrlReg::Uep01234(1));
    assert_eq!(ep_out.ctrl_reg(), CtrlReg::Uep567(1));
    assert_eq!(pipe.ctrl_reg(), CtrlReg::Uep01234(0));
    assert_eq!(pipe.out_waker(), WakerId::Out(0));
    assert_eq!(pipe.in_waker(), WakerId::In(0));
}

fn write(sim: &mut Sim, ep: &Endpoint<In, 8>, data: &[u8]) -> Poll<Result<(), EndpointError>> {
    let mut usb = Usbd::new();
    let r = ep.write(&mut usb, sim.ctrl(1), sim.cut_in[1], data);
    sim.perform(usb);
    r
}

fn read(sim: &mut Sim, ep: &Endpoint<Out, 8>, buf: &mut [u8]) -> Poll<Result<usize, EndpointError>> {
    let mut usb = Usbd::new();
    let mem = sim.buffers[buf_no(EpBuf::Buf6)];
    let r = ep.read(&mut usb, sim.ctrl(6), sim.cut_out[6], sim.out_len[6], &mem, buf);
    sim.perform(usb);
    r
}

#[test]
fn write_reaches_the_host() {
    let (mut sim, ep_in, _ep_out, _bus, _pipe) = running();
    for data in [&[1u8, 2, 3][..], &[][..], &[7u8; 64][..]] {
        assert_eq!(write(&mut sim, &ep_in, data), Poll::Ready(Ok(())));
        assert_eq!(write(&mut sim, &ep_in, &[9]), Poll::Pending);
        sim.woken.clear();
        let toggle = sim.ctrl(1).t_tog;
        assert_eq!(sim.host_in(1, EpBuf::Buf1), data.to_vec());
        assert!(sim.woke(WakerId::In(1)));
        assert_ne!(sim.ctrl(1).t_tog, toggle);
    }
}

#[test]
fn write_of_too_long_a_packet_is_refused() {
    let (mut sim, ep_in, _ep_out, _bus, _pipe) = running();
    let overflow = Poll::Ready(Err(EndpointError::BufferOverflow));
    assert_eq!(write(&mut sim, &ep_in, &[0; 65]), overflow);
    assert_eq!(write(&mut sim, &ep_in, &[0; 64]), Poll::Ready(Ok(())));
    assert_eq!(write(&mut sim, &ep_in, &[0; 65]), overflow);
}

#[test]
fn write_operations_in_order() {
    let (sim, ep_in, _ep_out, _bus, _pipe) = running();
    let mut usb = Usbd::new();
    assert_eq!(ep_in.write(&mut usb, sim.ctrl(1), false, &[0x41]), Poll::Ready(Ok(())));
    let ops = usb.into_ops();
    assert_eq!(ops.len(), 3);
    assert_eq!(ops[0], HwOp::StoreByte { buf: EpBuf::Buf1, offset: 0, value: 0x41 });
    assert_eq!(ops[1], HwOp::WriteTLen(TLenReg::Uep01234(1), 1));
    assert!(matches!(ops[2], HwOp::ModifyCtrl(CtrlReg::Uep01234(1), _)));
}

#[test]
fn read_gives_back_what_the_host_sent() {
    let (mut sim, _ep_in, ep_out, _bus, _pipe) = running();
    for data in [&[10u8, 20, 30][..], &[][..], &[5u8; 32][..]] {
        let mut buf = [0xeeu8; 40];
        assert_eq!(read(&mut sim, &ep_out, &mut buf), Poll::Pending);
        sim.woken.clear();
        sim.host_out(6, EpBuf::Buf6, data);
        assert!(sim.woke(WakerId::Out(6)));
        assert_eq!(read(&mut sim, &ep_out, &mut buf), Poll::Ready(Ok(data.len())));
        assert_eq!(&buf[..data.len()], data);
        assert!(buf[data.len()..].iter().all(|b| *b == 0xee));
        assert_eq!(sim.ctrl(6).r_res, RES_ACK);
    }
}

#[test]
fn read_into_too_small_a_buffer_keeps_the_packet() {
    let (mut sim, _ep_in, ep_out, _bus, _pipe) = running();
    sim.host_out(6, EpBuf::Buf6, &[1, 2, 3]);
    let mut small = [9u8; 2];
    assert_eq!(
        read(&mut sim, &ep_out, &mut small),
        Poll::Ready(Err(EndpointError::BufferOverflow))
    );
    assert_eq!(small, [9, 9]);
    let mut large = [0u8; 3];
    assert_eq!(read(&mut sim, &ep_out, &mut large), Poll::Ready(Ok(3)));
    assert_eq!(large, [1, 2, 3]);
}

#[test]
fn transfers_do_not_disturb_other_endpoints() {
    let (mut sim, ep_in, _ep_out, _bus, _pipe) = running();
    let before = (sim.ctrl(6), sim.buffers[buf_no(EpBuf::Buf6)], sim.out_len[6]);
    assert_eq!(write(&mut sim, &ep_in, &[1, 2]), Poll::Ready(Ok(())));
    sim.host_in(1, EpBuf::Buf1);
    assert_eq!((sim.ctrl(6), sim.buffers[buf_no(EpBuf::Buf6)], sim.out_len[6]), before);
}

// Transfers under way at a bus reset.

fn bus_reset(sim: &mut Sim, bus: &mut Bus<8>) {
    look(sim, bus);
    sim.woken.clear();
    sim.int_fg.bus_rst = true;
    sim.interrupt::<8>(0, 0, false, 0);
    assert_eq!(look(sim, bus), Poll::Ready(Event::Reset));
}

#[test]
fn reset_fails_a_read_under_way() {
    let (mut sim, _ep_in, ep_out, mut bus, _pipe) = running();
    let mut buf = [0xeeu8; 8];
    sim.host_out(6, EpBuf::Buf6, &[1, 2, 3]);
    assert_eq!(read(&mut sim, &ep_out, &mut buf), Poll::Ready(Ok(3)));
    let mut buf = [0xeeu8; 8];
    assert_eq!(read(&mut sim, &ep_out, &mut buf), Poll::Pending);
    bus_reset(&mut sim, &mut bus);
    assert!(sim.woke(WakerId::Out(6)));
    assert_eq!(sim.ctrl(6), REST);
    let disabled = Poll::Ready(Err(EndpointError::Disabled));
    assert_eq!(read(&mut sim, &ep_out, &mut buf), disabled);
    assert_eq!(read(&mut sim, &ep_out, &mut buf), disabled);
    assert_eq!(buf, [0xee; 8]);
    assert_eq!(sim.ctrl(6), REST);
    assert_eq!(ep_out.wait_enabled(sim.ctrl(6), sim.cut_out[6]), Poll::Pending);
    let mut usb = Usbd::new();
    bus.endpoint_set_enabled(&mut usb, ep_out.info().addr, true);
    sim.perform(usb);
    assert_eq!(ep_out.wait_enabled(sim.ctrl(6), sim.cut_out[6]), Poll::Ready(()));
    assert_eq!(read(&mut sim, &ep_out, &mut buf), Poll::Pending);
    sim.host_out(6, EpBuf::Buf6, &[7]);
    assert_eq!(read(&mut sim, &ep_out, &mut buf), Poll::Ready(Ok(1)));
    assert_eq!(buf[0], 7);
}

#[test]
fn reset_fails_a_write_under_way() {
    let (mut sim, ep_in, _ep_out, mut bus, _pipe) = running();
    assert_eq!(write(&mut sim, &ep_in, &[1]), Poll::Ready(Ok(())));
    assert_eq!(write(&mut sim, &ep_in, &[2]), Poll::Pending);
    bus_reset(&mut sim, &mut bus);
    assert!(sim.woke(WakerId::In(1)));
    assert_eq!(write(&mut sim, &ep_in, &[2]), Poll::Ready(Err(EndpointError::Disabled)));
    assert_eq!(sim.ctrl(1), REST);
    assert_eq!(
        write(&mut sim, &ep_in, &[0; 65]),
        Poll::Ready(Err(EndpointError::BufferOverflow))
    );
    let mut usb = Usbd::new();
    bus.endpoint_set_stalled(&mut usb, ep_in.info().addr, false);
    sim.perform(usb);
    assert_eq!(write(&mut sim, &ep_in, &[2]), Poll::Ready(Ok(())));
}

#[test]
fn reset_fails_control_transfers_under_way() {
    let (mut sim, _ep_in, _ep_out, mut bus, pipe) = running();
    let mut stage = Stage::Start;
    assert_eq!(sim.carry_on(&mut stage, |s, u, l, _| pipe.data_in(s, u, l, &[1], true)), None);
    bus_reset(&mut sim, &mut bus);
    assert!(sim.woke(WakerId::In(0)) && sim.woke(WakerId::Out(0)));
    assert_eq!(
        sim.carry_on(&mut stage, |s, u, l, _| pipe.data_in(s, u, l, &[1], true)),
        Some(Err(EndpointError::Disabled))
    );
    let mut buf = [0u8; 4];
    for start in [Stage::Start, Stage::Waiting, Stage::Ending] {
        let mut stage = start;
        let r = sim.carry_on(&mut stage, |s, u, l, m| pipe.data_out(s, u, l, m, &mut buf));
        assert_eq!(r, Some(Err(EndpointError::Disabled)));
        assert_eq!(stage, start);
    }
    assert_eq!(sim.ctrl(0), READY0);
}

#[test]
fn reset_leaves_set_address_without_effect() {
    let (mut sim, _ep_in, _ep_out, mut bus, pipe) = running();
    let mut stage = Stage::Start;
    let r = sim.carry_on(&mut stage, |s, u, l, _| pipe.accept_set_address(s, u, l, 42));
    assert_eq!(r, None);
    bus_reset(&mut sim, &mut bus);
    assert_eq!(sim.ctrl(0).t_res, RES_NAK);
    let r = sim.carry_on(&mut stage, |s, u, l, _| pipe.accept_set_address(s, u, l, 42));
    assert_eq!(r, Some(()));
    assert_eq!(sim.dev_addr, 0);
    let mut stage = Stage::Start;
    let r = sim.carry_on(&mut stage, |s, u, l, _| pipe.send_status_zlp(s, u, l));
    assert_eq!(r, Some(false));
}

#[test]
fn reset_does_not_outlive_a_new_start() {
    let (mut sim, _ep_in, _ep_out, mut bus, _pipe) = running();
    bus_reset(&mut sim, &mut bus);
    let mut usb = Usbd::new();
    let mut driver = Driver::<8>::new(&mut usb, UsbVoltage::V33);
    let ep_in = driver.alloc_endpoint_in(EndpointType::Bulk, addr(0x81), 64, 0).unwrap();
    let ep_out = driver.alloc_endpoint_out(EndpointType::Bulk, addr(0x06), 32, 0).unwrap();
    let (_bus, pipe) = driver.start(&mut usb, 64);
    sim.perform(usb);
    assert_eq!(ep_in.wait_enabled(sim.ctrl(1), sim.cut_in[1]), Poll::Ready(()));
    assert_eq!(ep_out.wait_enabled(sim.ctrl(6), sim.cut_out[6]), Poll::Ready(()));
    assert_eq!(write(&mut sim, &ep_in, &[1, 2]), Poll::Ready(Ok(())));
    assert_eq!(sim.host_in(1, EpBuf::Buf1), vec![1, 2]);
    let mut stage = Stage::Start;
    assert_eq!(sim.carry_on(&mut stage, |s, u, l, _| pipe.data_in(s, u, l, &[3], true)), None);
    assert_eq!(sim.host_in(0, EpBuf::Buf0), vec![3]);
}

#[test]
fn requests_work_again_after_a_reset() {
    let (mut sim, _ep_in, _ep_out, mut bus, pipe) = running();
    bus_reset(&mut sim, &mut bus);
    sim.host_setup([0, 5, 42, 0, 0, 0, 0, 0]);
    let mut stage = Stage::Start;
    let packet = sim.carry_on(&mut stage, |s, u, l, m| pipe.setup(s, u, l, m));
    assert_eq!(packet, Some([0, 5, 42, 0, 0, 0, 0, 0]));
    let mut stage = Stage::Start;
    let r = sim.carry_on(&mut stage, |s, u, l, _| pipe.accept_set_address(s, u, l, 42));
    assert_eq!(r, None);
    sim.host_in(0, EpBuf::Buf0);
    let r = sim.carry_on(&mut stage, |s, u, l, _| pipe.accept_set_address(s, u, l, 42));
    assert_eq!(r, Some(()));
    assert_eq!(sim.dev_addr, 42);
}

// Control transfers.

#[test]
fn setup_packet_is_picked_up_once() {
    let (mut sim, _ep_in, _ep_out, _bus, pipe) = running();
    let mut stage = Stage::Start;
    assert_eq!(sim.carry_on(&mut stage, |s, u, l, m| pipe.setup(s, u, l, m)), None);
    sim.host_setup([0x80, 6, 0, 1, 0, 0, 18, 0]);
    assert_eq!(
        sim.carry_on(&mut stage, |s, u, l, m| pipe.setup(s, u, l, m)),
        Some([0x80, 6, 0, 1, 0, 0, 18, 0])
    );
    assert!(!sim.setup);
    let mut stage = Stage::Start;
    assert_eq!(sim.carry_on(&mut stage, |s, u, l, m| pipe.setup(s, u, l, m)), None);
    assert_eq!(pipe.buf().ptr, EpBuf::Buf0);
    assert_eq!(pipe.buf().len, 64);
}

#[test]
fn setup_packet_that_follows_closely_is_not_lost() {
    let (mut sim, _ep_in, _ep_out, _bus, pipe) = running();
    let mut stage = Stage::Start;
    sim.host_setup([1; 8]);
    let mut usb = Usbd::new();
    let step = pipe.setup(&mut stage, &mut usb, sim.look(), &sim.buffers[0]);
    assert_eq!(step, Step::Again);
    sim.perform(usb);
    sim.host_setup([2; 8]);
    assert_eq!(sim.carry_on(&mut stage, |s, u, l, m| pipe.setup(s, u, l, m)), Some([2; 8]));
    assert!(sim.setup);
}

#[test]
fn data_out_stage_gives_back_the_chunk() {
    let (mut sim, _ep_in, _ep_out, _bus, pipe) = running();
    sim.ctrl.insert(0, UepCtrl { t_tog: true, r_tog: true, t_res: RES_NAK, r_res: RES_NAK });
    let mut stage = Stage::Start;
    let mut buf = [0u8; 8];
    let r = sim.carry_on(&mut stage, |s, u, l, m| pipe.data_out(s, u, l, m, &mut buf));
    assert_eq!(r, None);
    assert_eq!(stage, Stage::Waiting);
    sim.host_out(0, EpBuf::Buf0, &[4, 5, 6, 7]);
    let r = sim.carry_on(&mut stage, |s, u, l, m| pipe.data_out(s, u, l, m, &mut buf));
    assert_eq!(r, Some(Ok(4)));
    assert_eq!(buf, [4, 5, 6, 7, 0, 0, 0, 0]);
}

#[test]
fn data_out_into_too_small_a_buffer_fails() {
    let (mut sim, _ep_in, _ep_out, _bus, pipe) = running();
    let mut stage = Stage::Start;
    let mut buf = [0u8; 3];
    sim.ctrl.get_mut(&0).unwrap().r_res = RES_ACK;
    assert_eq!(
        sim.carry_on(&mut stage, |s, u, l, m| pipe.data_out(s, u, l, m, &mut buf)),
        None
    );
    sim.host_out(0, EpBuf::Buf0, &[4, 5, 6, 7]);
    assert_eq!(
        sim.carry_on(&mut stage, |s, u, l, m| pipe.data_out(s, u, l, m, &mut buf)),
        Some(Err(EndpointError::BufferOverflow))
    );
    assert_eq!(buf, [0, 0, 0]);
}

#[test]
fn data_in_stage_reaches_the_host() {
    for last in [false, true] {
        let (mut sim, _ep_in, _ep_out, _bus, pipe) = running();
        sim.host_setup([0; 8]);
        sim.setup = false;
        let data = [18u8, 1, 0];
        let mut stage = Stage::Start;
        assert_eq!(
            sim.carry_on(&mut stage, |s, u, l, _| pipe.data_in(s, u, l, &data, last)),
            None
        );
        assert_eq!(sim.host_in(0, EpBuf::Buf0), data.to_vec());
        assert_eq!(
            sim.carry_on(&mut stage, |s, u, l, _| pipe.data_in(s, u, l, &data, last)),
            Some(Ok(()))
        );
        assert_eq!(sim.ctrl(0).r_res, if last { RES_ACK } else { RES_NAK });
        assert!(!sim.ctrl(0).t_tog);
    }
}

#[test]
fn data_in_of_too_long_a_chunk_is_refused() {
    let (_sim, driver) = fresh::<4>();
    let mut usb = Usbd::new();
    let (_bus, pipe) = driver.start(&mut usb, 8);
    let look =
        ControlLook { ctrl: READY0, setup: false, cut_in: false, cut_out: false, out_len: 0 };
    let mut stage = Stage::Start;
    let mut usb = Usbd::new();
    assert_eq!(
        pipe.data_in(&mut stage, &mut usb, look, &[0; 9], true),
        Step::Done(Err(EndpointError::BufferOverflow))
    );
    assert_eq!(stage, Stage::Start);
    assert!(usb.into_ops().is_empty());
}

#[test]
fn setup_packet_cuts_a_transfer_short() {
    let (mut sim, _ep_in, _ep_out, _bus, pipe) = running();
    let mut stage = Stage::Start;
    assert_eq!(sim.carry_on(&mut stage, |s, u, l, _| pipe.data_in(s, u, l, &[1], true)), None);
    sim.host_setup([0; 8]);
    assert_eq!(
        sim.carry_on(&mut stage, |s, u, l, _| pipe.data_in(s, u, l, &[1], true)),
        Some(Err(EndpointError::Disabled))
    );
    assert_eq!(sim.ctrl(0).r_res, RES_NAK);

    let (mut sim, _ep_in, _ep_out, _bus, pipe) = running();
    let mut stage = Stage::Start;
    let mut buf = [0u8; 4];
    let r = sim.carry_on(&mut stage, |s, u, l, m| pipe.data_out(s, u, l, m, &mut buf));
    assert_eq!(r, None);
    sim.host_setup([0; 8]);
    let r = sim.carry_on(&mut stage, |s, u, l, m| pipe.data_out(s, u, l, m, &mut buf));
    assert_eq!(r, Some(Err(EndpointError::Disabled)));
}

#[test]
fn setup_packet_after_the_wait_still_cuts_the_transfer() {
    let (mut sim, _ep_in, _ep_out, _bus, pipe) = running();
    let mut stage = Stage::Start;
    assert_eq!(sim.carry_on(&mut stage, |s, u, l, _| pipe.data_in(s, u, l, &[1], true)), None);
    sim.host_in(0, EpBuf::Buf0);
    let mut usb = Usbd::new();
    assert_eq!(pipe.data_in(&mut stage, &mut usb, sim.look(), &[1], true), Step::Again);
    sim.host_setup([0; 8]);
    assert_eq!(
        pipe.data_in(&mut stage, &mut usb, sim.look(), &[1], true),
        Step::Done(Err(EndpointError::Disabled))
    );
    assert!(usb.into_ops().is_empty());
}

#[test]
fn accepted_request_ends_with_an_empty_packet() {
    let (mut sim, _ep_in, _ep_out, _bus, pipe) = running();
    let mut stage = Stage::Start;
    assert_eq!(sim.carry_on(&mut stage, |s, u, l, _| pipe.accept(s, u, l)), None);
    assert_eq!(sim.host_in(0, EpBuf::Buf0), Vec::<u8>::new());
    assert_eq!(sim.carry_on(&mut stage, |s, u, l, _| pipe.accept(s, u, l)), Some(()));
}

#[test]
fn status_stage_tells_how_it_ended() {
    let (mut sim, _ep_in, _ep_out, _bus, pipe) = running();
    let mut stage = Stage::Start;
    assert_eq!(sim.carry_on(&mut stage, |s, u, l, _| pipe.send_status_zlp(s, u, l)), None);
    sim.host_in(0, EpBuf::Buf0);
    assert_eq!(sim.carry_on(&mut stage, |s, u, l, _| pipe.send_status_zlp(s, u, l)), Some(true));
    let mut stage = Stage::Start;
    assert_eq!(sim.carry_on(&mut stage, |s, u, l, _| pipe.send_status_zlp(s, u, l)), None);
    sim.host_setup([0; 8]);
    assert_eq!(sim.carry_on(&mut stage, |s, u, l, _| pipe.send_status_zlp(s, u, l)), Some(false));
}

#[test]
fn address_changes_after_the_status_stage() {
    let (mut sim, _ep_in, _ep_out, _bus, pipe) = running();
    let mut stage = Stage::Start;
    let r = sim.carry_on(&mut stage, |s, u, l, _| pipe.accept_set_address(s, u, l, 42));
    assert_eq!(r, None);
    assert_eq!(sim.dev_addr, 0);
    sim.host_in(0, EpBuf::Buf0);
    assert_eq!(sim.dev_addr, 0);
    let r = sim.carry_on(&mut stage, |s, u, l, _| pipe.accept_set_address(s, u, l, 42));
    assert_eq!(r, Some(()));
    assert_eq!(sim.dev_addr, 42);
}

#[test]
fn address_stays_when_the_status_stage_is_cut_short() {
    let (mut sim, _ep_in, _ep_out, _bus, pipe) = running();
    let mut stage = Stage::Start;
    let r = sim.carry_on(&mut stage, |s, u, l, _| pipe.accept_set_address(s, u, l, 42));
    assert_eq!(r, None);
    sim.host_setup([0; 8]);
    let r = sim.carry_on(&mut stage, |s, u, l, _| pipe.accept_set_address(s, u, l, 42));
    assert_eq!(r, Some(()));
    assert_eq!(sim.dev_addr, 0);
}

#[test]
fn rejected_request_stalls_until_the_next_setup() {
    let (mut sim, _ep_in, _ep_out, _bus, pipe) = running();
    let mut usb = Usbd::new();
    pipe.reject(&mut usb);
    sim.perform(usb);
    assert_eq!(sim.ctrl(0).t_res, RES_STALL);
    assert_eq!(sim.ctrl(0).r_res, RES_STALL);
    sim.host_setup([0; 8]);
    assert_eq!(sim.ctrl(0).t_res, RES_NAK);
    assert_eq!(sim.ctrl(0).r_res, RES_NAK);
}

#[test]
fn operations_stay_inside_the_smaller_table() {
    for token in 0..4u8 {
        for endp in 0..16u8 {
            let status = InterruptStatus {
                int_fg: IntFg { transfer: true, ..NO_FLAGS },
                token,
                endp,
                rx_len: 64,
            };
            let mut usb = Usbd::new();
            assert_eq!(
                InterruptHandler::<4>::on_interrupt(&mut usb, status),
                Served::Completely
            );
            for op in usb.into_ops() {
                match op {
                    HwOp::ModifyCtrl(CtrlReg::Uep01234(n), _) => assert!(n < 4),
                    HwOp::ModifyCtrl(CtrlReg::Uep567(_), _) => panic!("no such register"),
                    HwOp::StoreOutLen { index, .. } => assert!(index < 4),
                    HwOp::Wake(WakerId::In(n)) | HwOp::Wake(WakerId::Out(n)) => assert!(n < 4),
                    _ => {}
                }
            }
        }
    }
}
