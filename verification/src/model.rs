//! What the driver's operations do to the hardware and to the state that the
//! interrupt handler shares with the tasks.
//!
//! The model covers what the driver relies on. It is used by the laws, not by the
//! driver.

use crate::bus::IrqFlags;
use crate::endpoints::store_ops;
use crate::regs::{
    AfioUsb, CtrlReg, DmaReg, EpBuf, HwOp, IntEn, IntFg, IrqFlag, ModeReg, TLenReg, UdevCtrl,
    UepCtrl, UsbCtrl, UsbPin, WakerId,
};
use crate::usb::Direction;
use vstd::prelude::*;

verus! {

/// State of the hardware and of what is shared.
pub struct Hardware {
    /// Pins that are inputs without a pull resistor.
    pub floating: Set<UsbPin>,
    /// The peripheral has its clock.
    pub clocked: bool,
    pub afio: AfioUsb,
    pub usb_ctrl: UsbCtrl,
    pub udev_ctrl: UdevCtrl,
    pub int_en: IntEn,
    pub int_fg: IntFg,
    /// Address that the device answers to.
    pub dev_addr: u8,
    pub ctrl: Map<CtrlReg, UepCtrl>,
    pub t_len: Map<TLenReg, u8>,
    /// Buffer whose address each DMA register holds.
    pub dma: Map<DmaReg, EpBuf>,
    pub tx_en: Map<(ModeReg, usize), bool>,
    pub rx_en: Map<(ModeReg, usize), bool>,
    /// Contents of the DMA buffers.
    pub buffers: Map<EpBuf, Seq<u8>>,
    /// Length kept of the last OUT packet of each endpoint.
    pub out_len: Map<usize, u16>,
    /// A SETUP packet has arrived that was not picked up.
    pub setup: bool,
    /// A bus reset has cut the transfers of a direction of an endpoint, which was
    /// not put to use again since.
    pub cut: Map<(usize, Direction), bool>,
    pub irq: IrqFlags,
    /// Wakers woken since they were last looked at.
    pub woken: Set<WakerId>,
    pub interrupt_pending: bool,
    pub interrupt_enabled: bool,
}

/// The control register that the hardware consults for an endpoint.
pub open spec fn ctrl_of(endpoint: int) -> CtrlReg {
    if endpoint == 0 {
        CtrlReg::Uep01234(0)
    } else if endpoint == 1 {
        CtrlReg::Uep01234(1)
    } else if endpoint == 2 {
        CtrlReg::Uep01234(2)
    } else if endpoint == 3 {
        CtrlReg::Uep01234(3)
    } else if endpoint == 4 {
        CtrlReg::Uep01234(4)
    } else if endpoint == 5 {
        CtrlReg::Uep567(0)
    } else if endpoint == 6 {
        CtrlReg::Uep567(1)
    } else {
        CtrlReg::Uep567(2)
    }
}

/// The register that holds the length of what an endpoint sends.
pub open spec fn t_len_of(endpoint: int) -> TLenReg {
    if endpoint == 0 {
        TLenReg::Uep01234(0)
    } else if endpoint == 1 {
        TLenReg::Uep01234(1)
    } else if endpoint == 2 {
        TLenReg::Uep01234(2)
    } else if endpoint == 3 {
        TLenReg::Uep01234(3)
    } else if endpoint == 4 {
        TLenReg::Uep01234(4)
    } else if endpoint == 5 {
        TLenReg::Uep567(0)
    } else if endpoint == 6 {
        TLenReg::Uep567(1)
    } else {
        TLenReg::Uep567(2)
    }
}

/// The register that tells where the memory of an endpoint is.
pub open spec fn dma_of(endpoint: int) -> DmaReg {
    if endpoint == 0 || endpoint == 4 {
        DmaReg::Uep0123(0)
    } else if endpoint == 1 {
        DmaReg::Uep0123(1)
    } else if endpoint == 2 {
        DmaReg::Uep0123(2)
    } else if endpoint == 3 {
        DmaReg::Uep0123(3)
    } else if endpoint == 5 {
        DmaReg::Uep567(0)
    } else if endpoint == 6 {
        DmaReg::Uep567(1)
    } else {
        DmaReg::Uep567(2)
    }
}

/// The mode register of an endpoint other than endpoint 0, and its place there.
pub open spec fn mode_of(endpoint: int) -> (ModeReg, usize) {
    if endpoint == 1 {
        (ModeReg::Uep4_1, 1)
    } else if endpoint == 2 {
        (ModeReg::Uep2_3, 0)
    } else if endpoint == 3 {
        (ModeReg::Uep2_3, 1)
    } else if endpoint == 4 {
        (ModeReg::Uep4_1, 0)
    } else if endpoint == 5 {
        (ModeReg::Uep567, 0)
    } else if endpoint == 6 {
        (ModeReg::Uep567, 1)
    } else {
        (ModeReg::Uep567, 2)
    }
}

/// The bytes that the host gets when it fetches a packet from an endpoint: as many
/// as the length register says, from where the DMA register points.
pub open spec fn host_packet(hw: Hardware, endpoint: int) -> Seq<u8> {
    hw.buffers[hw.dma[dma_of(endpoint)]].take(hw.t_len[t_len_of(endpoint)] as int)
}

/// The host has sent a packet to an endpoint: its bytes are where the DMA register
/// points. What follows them there is what was there before.
pub open spec fn host_sent(hw: Hardware, endpoint: int, data: Seq<u8>) -> Hardware {
    let buf = hw.dma[dma_of(endpoint)];
    Hardware {
        buffers: hw.buffers.insert(buf, data + hw.buffers[buf].skip(data.len() as int)),
        ..hw
    }
}

/// The interrupt flags that are left when `written` is written to `INT_FG`: each 1
/// clears its flag.
pub open spec fn clear_flags(cur: IntFg, written: IntFg) -> IntFg {
    IntFg {
        transfer: cur.transfer && !written.transfer,
        bus_rst: cur.bus_rst && !written.bus_rst,
        suspend: cur.suspend && !written.suspend,
        rest: cur.rest & !written.rest,
    }
}

/// Sets one of the flags for the bus task.
pub open spec fn store_irq(irq: IrqFlags, flag: IrqFlag, value: bool) -> IrqFlags {
    match flag {
        IrqFlag::Reset => IrqFlags { reset: value, ..irq },
        IrqFlag::Suspend => IrqFlags { suspend: value, ..irq },
        IrqFlag::Resume => IrqFlags { resume: value, ..irq },
    }
}

/// The peripheral after its reset: clocked, with everything off.
pub open spec fn reset_peripheral(hw: Hardware) -> Hardware {
    Hardware {
        clocked: true,
        usb_ctrl: UsbCtrl { dev_pu_en: false, int_busy: false, dma_en: false },
        udev_ctrl: UdevCtrl { pd_dis: false, port_en: false },
        int_en: IntEn { bus_rst: false, transfer: false, suspend: false },
        int_fg: IntFg { transfer: false, bus_rst: false, suspend: false, rest: 0 },
        dev_addr: 0,
        ctrl: Map::new(
            |reg: CtrlReg| true,
            |reg: CtrlReg| UepCtrl { t_tog: false, r_tog: false, t_res: 0, r_res: 0 },
        ),
        t_len: Map::new(|reg: TLenReg| true, |reg: TLenReg| 0u8),
        tx_en: Map::new(|slot: (ModeReg, usize)| true, |slot: (ModeReg, usize)| false),
        rx_en: Map::new(|slot: (ModeReg, usize)| true, |slot: (ModeReg, usize)| false),
        ..hw
    }
}

/// The state after one operation.
///
/// Two effects are not plain stores: writing `INT_FG` clears flags, and the port
/// enable takes effect only while the pull-up is on. Resetting the peripheral turns
/// everything off that its registers turn on: what was written to them before is
/// lost. The addresses in the DMA registers are left.
pub open spec fn step(hw: Hardware, op: HwOp) -> Hardware {
    match op {
        HwOp::FloatPin(pin) => Hardware { floating: hw.floating.insert(pin), ..hw },
        HwOp::EnableAndReset => reset_peripheral(hw),
        HwOp::ModifyAfio(afio) => Hardware { afio, ..hw },
        HwOp::WriteUsbCtrl(usb_ctrl) => Hardware { usb_ctrl, ..hw },
        HwOp::WriteUdevCtrl(v) => Hardware {
            udev_ctrl: UdevCtrl {
                pd_dis: v.pd_dis,
                port_en: v.port_en && hw.usb_ctrl.dev_pu_en,
            },
            ..hw
        },
        HwOp::WriteIntEn(int_en) => Hardware { int_en, ..hw },
        HwOp::WriteIntFg(written) => Hardware { int_fg: clear_flags(hw.int_fg, written), ..hw },
        HwOp::WriteDevAd(addr) => Hardware { dev_addr: addr, ..hw },
        HwOp::ModifyDevAd(addr) => Hardware { dev_addr: addr, ..hw },
        HwOp::WriteCtrl(reg, v) => Hardware { ctrl: hw.ctrl.insert(reg, v), ..hw },
        HwOp::ModifyCtrl(reg, update) => Hardware {
            ctrl: hw.ctrl.insert(reg, update.spec_apply(hw.ctrl[reg])),
            ..hw
        },
        HwOp::WriteTLen(reg, len) => Hardware { t_len: hw.t_len.insert(reg, len), ..hw },
        HwOp::WriteDma(reg, buf) => Hardware { dma: hw.dma.insert(reg, buf), ..hw },
        HwOp::ModifyMode { reg, n, tx_en, rx_en } => Hardware {
            tx_en: hw.tx_en.insert((reg, n), hw.tx_en[(reg, n)] || tx_en),
            rx_en: hw.rx_en.insert((reg, n), hw.rx_en[(reg, n)] || rx_en),
            ..hw
        },
        HwOp::StoreByte { buf, offset, value } => Hardware {
            buffers: hw.buffers.insert(buf, hw.buffers[buf].update(offset as int, value)),
            ..hw
        },
        HwOp::StoreOutLen { index, len } => Hardware {
            out_len: hw.out_len.insert(index, len),
            ..hw
        },
        HwOp::StoreSetup(setup) => Hardware { setup, ..hw },
        HwOp::StoreCut { index, dir, value } => Hardware {
            cut: hw.cut.insert((index, dir), value),
            ..hw
        },
        HwOp::StoreIrq(flag, value) => Hardware { irq: store_irq(hw.irq, flag, value), ..hw },
        HwOp::Wake(id) => Hardware { woken: hw.woken.insert(id), ..hw },
        HwOp::UnpendInterrupt => Hardware { interrupt_pending: false, ..hw },
        HwOp::EnableInterrupt => Hardware { interrupt_enabled: true, ..hw },
    }
}

/// The state after a sequence of operations.
pub open spec fn run(hw: Hardware, ops: Seq<HwOp>) -> Hardware
    decreases ops.len(),
{
    if ops.len() == 0 {
        hw
    } else {
        run(step(hw, ops[0]), ops.skip(1))
    }
}

/// Sequences run one after the other.
pub(crate) proof fn lemma_run_add(hw: Hardware, a: Seq<HwOp>, b: Seq<HwOp>)
    ensures
        run(hw, a + b) == run(run(hw, a), b),
    decreases a.len(),
{
    if a.len() == 0 {
        assert(a + b =~= b);
    } else {
        assert((a + b).skip(1) =~= a.skip(1) + b);
        lemma_run_add(step(hw, a[0]), a.skip(1), b);
    }
}

/// One more operation.
pub(crate) proof fn lemma_run_push(hw: Hardware, a: Seq<HwOp>, op: HwOp)
    ensures
        run(hw, a.push(op)) == step(run(hw, a), op),
{
    lemma_run_add(hw, a, seq![op]);
    lemma_run_1(run(hw, a), op);
    assert(a + seq![op] =~= a.push(op));
}

/// One operation further into a sequence.
pub(crate) proof fn lemma_run_take(hw: Hardware, ops: Seq<HwOp>, k: int)
    requires
        0 <= k < ops.len(),
    ensures
        run(hw, ops.take(k + 1)) == step(run(hw, ops.take(k)), ops[k]),
{
    assert(ops.take(k + 1) =~= ops.take(k).push(ops[k]));
    lemma_run_push(hw, ops.take(k), ops[k]);
}

/// The ends of a sequence.
pub(crate) proof fn lemma_run_ends(hw: Hardware, ops: Seq<HwOp>)
    ensures
        run(hw, ops.take(0)) == hw,
        run(hw, ops.take(ops.len() as int)) == run(hw, ops),
{
    assert(ops.take(ops.len() as int) =~= ops);
}

pub(crate) proof fn lemma_run_1(hw: Hardware, a: HwOp)
    ensures
        run(hw, seq![a]) == step(hw, a),
{
    reveal_with_fuel(run, 2);
}

pub(crate) proof fn lemma_run_2(hw: Hardware, a: HwOp, b: HwOp)
    ensures
        run(hw, seq![a, b]) == step(step(hw, a), b),
{
    reveal_with_fuel(run, 3);
}

pub(crate) proof fn lemma_run_3(hw: Hardware, a: HwOp, b: HwOp, c: HwOp)
    ensures
        run(hw, seq![a, b, c]) == step(step(step(hw, a), b), c),
{
    reveal_with_fuel(run, 4);
}

pub(crate) proof fn lemma_run_4(hw: Hardware, a: HwOp, b: HwOp, c: HwOp, d: HwOp)
    ensures
        run(hw, seq![a, b, c, d]) == step(step(step(step(hw, a), b), c), d),
{
    reveal_with_fuel(run, 5);
}

/// Storing data replaces the first bytes of its buffer and changes nothing else.
pub(crate) proof fn lemma_run_store(hw: Hardware, buf: EpBuf, data: Seq<u8>)
    requires
        data.len() <= hw.buffers[buf].len(),
        data.len() <= usize::MAX,
    ensures
        ({
            let after = run(hw, store_ops(buf, data));
            &&& after.buffers[buf] == data + hw.buffers[buf].skip(data.len() as int)
            &&& forall|b: EpBuf| b != buf ==> #[trigger] after.buffers[b] == hw.buffers[b]
            &&& after == Hardware { buffers: after.buffers, ..hw }
        }),
    decreases data.len(),
{
    let ops = store_ops(buf, data);
    if data.len() > 0 {
        let head = data.drop_last();
        let mid = run(hw, store_ops(buf, head));
        lemma_run_store(hw, buf, head);
        assert(ops =~= store_ops(buf, head).push(ops.last()));
        lemma_run_push(hw, store_ops(buf, head), ops.last());
        assert(mid.buffers[buf].update(data.len() - 1, data.last()) =~= data
            + hw.buffers[buf].skip(data.len() as int));
    } else {
        assert(data + hw.buffers[buf].skip(0) =~= hw.buffers[buf]);
    }
}

} // verus!
