//! Bringing the peripheral up and starting it.

use crate::driver::{
    afio_for, alloc_wf, endpoint_start_ops, endpoints_start_ops, init_ops, start_ops, used_dir,
    EndpointData, UsbVoltage,
};
use crate::endpoints::{has_buffer, mode_op, mode_slot, spec_ep_buf, spec_ep_ctrl, spec_ep_dma};
use crate::laws::allocation::law_endpoints_share_nothing;
use crate::laws::registers::law_driver_uses_the_endpoints_registers;
use crate::model::{
    ctrl_of, dma_of, lemma_run_4, lemma_run_add, lemma_run_ends, lemma_run_take, mode_of,
    reset_peripheral, run, step, Hardware,
};
use crate::regs::{
    AfioUsb, CtrlReg, DmaReg, EpBuf, HwOp, IntEn, ModeReg, UdevCtrl, UepCtrl, UsbCtrl, UsbPin,
    WakerId, RES_ACK, RES_NAK,
};
use crate::usb::Direction;
use vstd::prelude::*;

verus! {

/// The states in which bringing the peripheral up passes.
proof fn lemma_init_states(hw: Hardware, vdd: UsbVoltage)
    ensures
        ({
            let ops = init_ops(vdd);
            let h2 = Hardware { floating: hw.floating.insert(UsbPin::Dp).insert(UsbPin::Dm), ..hw };
            let h3 = reset_peripheral(h2);
            let h4 = Hardware { afio: afio_for(vdd), ..h3 };
            let h5 = Hardware { dev_addr: 0, ..h4 };
            let h6 = Hardware {
                usb_ctrl: UsbCtrl { dev_pu_en: true, int_busy: true, dma_en: true },
                ..h5
            };
            let h7 = Hardware { udev_ctrl: UdevCtrl { pd_dis: true, port_en: true }, ..h6 };
            &&& run(hw, ops.take(2)) == h2
            &&& run(hw, ops.take(3)) == h3
            &&& run(hw, ops.take(4)) == h4
            &&& run(hw, ops.take(5)) == h5
            &&& run(hw, ops.take(6)) == h6
            &&& run(hw, ops.take(7)) == h7
            &&& run(hw, ops) == Hardware {
                int_en: IntEn { bus_rst: true, transfer: true, suspend: true },
                ..h7
            }
        }),
{
    let ops = init_ops(vdd);
    let h2 = Hardware { floating: hw.floating.insert(UsbPin::Dp).insert(UsbPin::Dm), ..hw };
    let h3 = reset_peripheral(h2);
    let h4 = Hardware { afio: afio_for(vdd), ..h3 };
    let h5 = Hardware { dev_addr: 0, ..h4 };
    let h6 = Hardware {
        usb_ctrl: UsbCtrl { dev_pu_en: true, int_busy: true, dma_en: true },
        ..h5
    };
    let h7 = Hardware { udev_ctrl: UdevCtrl { pd_dis: true, port_en: true }, ..h6 };
    lemma_run_ends(hw, ops);
    assert(run(hw, ops.take(2)) == h2) by {
        lemma_run_take(hw, ops, 0);
        lemma_run_take(hw, ops, 1);
    }
    assert(run(hw, ops.take(3)) == h3) by {
        lemma_run_take(hw, ops, 2);
    }
    assert(run(hw, ops.take(4)) == h4) by {
        lemma_run_take(hw, ops, 3);
    }
    assert(run(hw, ops.take(5)) == h5) by {
        lemma_run_take(hw, ops, 4);
    }
    assert(run(hw, ops.take(6)) == h6) by {
        lemma_run_take(hw, ops, 5);
    }
    assert(run(hw, ops.take(7)) == h7) by {
        lemma_run_take(hw, ops, 6);
    }
    lemma_run_take(hw, ops, 7);
}

/// Whatever state the peripheral was in, bringing it up leaves the pins to the
/// PHY, with pull-up and PHY mode for the voltage, the device at address 0 with
/// its pull-up on, the port enabled, and the driver's interrupts raised.
pub proof fn law_init(hw: Hardware, vdd: UsbVoltage)
    ensures
        ({
            let up = run(hw, init_ops(vdd));
            &&& up.floating.contains(UsbPin::Dp)
            &&& up.floating.contains(UsbPin::Dm)
            &&& up.clocked
            &&& up.afio == afio_for(vdd)
            &&& up.afio.usb_ioen
            &&& up.dev_addr == 0
            &&& up.usb_ctrl == UsbCtrl { dev_pu_en: true, int_busy: true, dma_en: true }
            &&& up.udev_ctrl == UdevCtrl { pd_dis: true, port_en: true }
            &&& up.int_en == IntEn { bus_rst: true, transfer: true, suspend: true }
        }),
{
    lemma_init_states(hw, vdd);
}

/// The pull-up is turned on before the port is enabled.
pub proof fn law_pull_up_before_port(vdd: UsbVoltage, i: int, j: int)
    requires
        0 <= i < init_ops(vdd).len(),
        0 <= j < init_ops(vdd).len(),
        init_ops(vdd)[i] matches HwOp::WriteUsbCtrl(c) && c.dev_pu_en,
        init_ops(vdd)[j] matches HwOp::WriteUdevCtrl(c) && c.port_en,
    ensures
        i < j,
{
}

/// Pull-up and PHY mode change together: the strong pull-up goes with the 3.3 V
/// PHY, the weak one with the 5 V tolerant PHY, and no other pair occurs.
pub proof fn law_voltage_pair(vdd: UsbVoltage)
    ensures
        afio_for(vdd).udp_pue == 0b11 && afio_for(vdd).usb_phy_v33 && vdd == UsbVoltage::V33
            || afio_for(vdd).udp_pue == 0b10 && !afio_for(vdd).usb_phy_v33 && vdd
            == UsbVoltage::V5,
{
}

/// How endpoint `i` stands once the start has dealt with it.
pub open spec fn started(hw: Hardware, after: Hardware, i: int, data: EndpointData) -> bool {
    let slot = mode_slot(i);
    if data.is_free() {
        &&& after.dma[spec_ep_dma(i)] == hw.dma[spec_ep_dma(i)]
        &&& after.ctrl[spec_ep_ctrl(i)] == hw.ctrl[spec_ep_ctrl(i)]
        &&& after.tx_en[slot] == hw.tx_en[slot]
        &&& after.rx_en[slot] == hw.rx_en[slot]
        &&& forall|dir: Direction| #[trigger]
            after.cut[(i as usize, dir)] == hw.cut[(i as usize, dir)]
    } else {
        &&& after.dma[spec_ep_dma(i)] == spec_ep_buf(i)
        &&& after.ctrl[spec_ep_ctrl(i)] == UepCtrl {
            t_tog: false,
            r_tog: false,
            t_res: RES_NAK,
            r_res: RES_NAK,
        }
        &&& after.tx_en[slot] == (hw.tx_en[slot] || data.used_in)
        &&& after.rx_en[slot] == (hw.rx_en[slot] || data.used_out)
        &&& !after.cut[(i as usize, used_dir(data))]
        &&& forall|dir: Direction|
            dir != used_dir(data) ==> #[trigger] after.cut[(i as usize, dir)]
                == hw.cut[(i as usize, dir)]
    }
}

spec fn untouched(hw: Hardware, after: Hardware, i: int) -> bool {
    let slot = mode_slot(i);
    &&& after.dma[spec_ep_dma(i)] == hw.dma[spec_ep_dma(i)]
    &&& after.ctrl[spec_ep_ctrl(i)] == hw.ctrl[spec_ep_ctrl(i)]
    &&& i != 0 ==> after.tx_en[slot] == hw.tx_en[slot] && after.rx_en[slot] == hw.rx_en[slot]
    &&& forall|dir: Direction| #[trigger]
        after.cut[(i as usize, dir)] == hw.cut[(i as usize, dir)]
}

spec fn start_frame(hw: Hardware, after: Hardware) -> bool {
    after == Hardware {
        dma: after.dma,
        ctrl: after.ctrl,
        tx_en: after.tx_en,
        rx_en: after.rx_en,
        cut: after.cut,
        ..hw
    }
}

proof fn lemma_endpoints_start(hw: Hardware, ep_count: usize, alloc: Seq<EndpointData>, n: int)
    requires
        alloc_wf(alloc),
        alloc.len() == ep_count,
        1 <= n <= ep_count,
    ensures
        ({
            let after = run(hw, endpoints_start_ops(alloc, n));
            &&& start_frame(hw, after)
            &&& forall|i: int|
                1 <= i < n && has_buffer(ep_count, i) ==> #[trigger] started(
                    hw,
                    after,
                    i,
                    alloc[i],
                )
            &&& forall|i: int|
                (i == 0 || n <= i) && has_buffer(ep_count, i) ==> #[trigger] untouched(
                    hw,
                    after,
                    i,
                )
        }),
    decreases n,
{
    if n > 1 {
        let k = n - 1;
        let mid = run(hw, endpoints_start_ops(alloc, k));
        let after = run(hw, endpoints_start_ops(alloc, n));
        lemma_endpoints_start(hw, ep_count, alloc, k);
        lemma_run_add(hw, endpoints_start_ops(alloc, k), endpoint_start_ops(k, alloc[k]));
        if k != 4 {
            assert(untouched(hw, mid, k));
        }
        if k == 4 || alloc[k].is_free() {
            assert(after == mid);
        } else {
            lemma_run_4(
                mid,
                HwOp::WriteDma(spec_ep_dma(k), spec_ep_buf(k)),
                HwOp::WriteCtrl(
                    spec_ep_ctrl(k),
                    UepCtrl { t_tog: false, r_tog: false, t_res: RES_NAK, r_res: RES_NAK },
                ),
                HwOp::StoreCut { index: k as usize, dir: used_dir(alloc[k]), value: false },
                mode_op(k, alloc[k].used_in, alloc[k].used_out),
            );
        }
        assert forall|i: int| 1 <= i < n && has_buffer(ep_count, i) implies #[trigger] started(
            hw,
            after,
            i,
            alloc[i],
        ) by {
            if i != k {
                assert(started(hw, mid, i, alloc[i]));
                if k != 4 {
                    law_endpoints_share_nothing(ep_count, i, k);
                }
            }
        }
        assert forall|i: int|
            (i == 0 || n <= i) && has_buffer(ep_count, i) implies #[trigger] untouched(
            hw,
            after,
            i,
        ) by {
            assert(untouched(hw, mid, i));
            if k != 4 {
                law_endpoints_share_nothing(ep_count, i, k);
            }
        }
    }
}

/// Endpoint `i` is one of those below `n` that the start sets up.
pub open spec fn is_set_up(alloc: Seq<EndpointData>, n: int, i: int) -> bool {
    1 <= i < n && i != 4 && !alloc[i].is_free()
}

/// The control register belongs to no endpoint that the start sets up.
pub open spec fn other_ctrl(alloc: Seq<EndpointData>, n: int, reg: CtrlReg) -> bool {
    forall|i: int| #[trigger] is_set_up(alloc, n, i) ==> reg != spec_ep_ctrl(i)
}

/// The DMA register belongs to no endpoint that the start sets up.
pub open spec fn other_dma(alloc: Seq<EndpointData>, n: int, reg: DmaReg) -> bool {
    forall|i: int| #[trigger] is_set_up(alloc, n, i) ==> reg != spec_ep_dma(i)
}

/// The mode bits belong to no endpoint that the start sets up.
pub open spec fn other_slot(alloc: Seq<EndpointData>, n: int, slot: (ModeReg, usize)) -> bool {
    forall|i: int| #[trigger] is_set_up(alloc, n, i) ==> slot != mode_slot(i)
}

/// The note of a reset belongs to no direction that the start sets up.
pub open spec fn other_cut(alloc: Seq<EndpointData>, n: int, key: (usize, Direction)) -> bool {
    forall|i: int| #[trigger]
        is_set_up(alloc, n, i) ==> key != (i as usize, used_dir(alloc[i]))
}

proof fn lemma_endpoints_start_others(hw: Hardware, alloc: Seq<EndpointData>, n: int)
    requires
        1 <= n <= alloc.len(),
    ensures
        ({
            let after = run(hw, endpoints_start_ops(alloc, n));
            &&& forall|reg: CtrlReg|
                other_ctrl(alloc, n, reg) ==> #[trigger] after.ctrl[reg] == hw.ctrl[reg]
            &&& forall|reg: DmaReg|
                other_dma(alloc, n, reg) ==> #[trigger] after.dma[reg] == hw.dma[reg]
            &&& forall|slot: (ModeReg, usize)|
                other_slot(alloc, n, slot) ==> #[trigger] after.tx_en[slot] == hw.tx_en[slot]
            &&& forall|slot: (ModeReg, usize)|
                other_slot(alloc, n, slot) ==> #[trigger] after.rx_en[slot] == hw.rx_en[slot]
            &&& forall|key: (usize, Direction)|
                other_cut(alloc, n, key) ==> #[trigger] after.cut[key] == hw.cut[key]
        }),
    decreases n,
{
    if n > 1 {
        let k = n - 1;
        let mid = run(hw, endpoints_start_ops(alloc, k));
        lemma_endpoints_start_others(hw, alloc, k);
        lemma_run_add(hw, endpoints_start_ops(alloc, k), endpoint_start_ops(k, alloc[k]));
        assert forall|i: int| #[trigger] is_set_up(alloc, k, i) implies is_set_up(alloc, n, i) by {}
        if is_set_up(alloc, n, k) {
            lemma_run_4(
                mid,
                HwOp::WriteDma(spec_ep_dma(k), spec_ep_buf(k)),
                HwOp::WriteCtrl(
                    spec_ep_ctrl(k),
                    UepCtrl { t_tog: false, r_tog: false, t_res: RES_NAK, r_res: RES_NAK },
                ),
                HwOp::StoreCut { index: k as usize, dir: used_dir(alloc[k]), value: false },
                mode_op(k, alloc[k].used_in, alloc[k].used_out),
            );
        }
        let after = run(hw, endpoints_start_ops(alloc, n));
        assert forall|reg: CtrlReg| other_ctrl(alloc, n, reg) implies #[trigger] after.ctrl[reg]
            == hw.ctrl[reg] by {
            assert(other_ctrl(alloc, k, reg));
            assert(mid.ctrl[reg] == hw.ctrl[reg]);
        }
        assert forall|reg: DmaReg| other_dma(alloc, n, reg) implies #[trigger] after.dma[reg]
            == hw.dma[reg] by {
            assert(other_dma(alloc, k, reg));
            assert(mid.dma[reg] == hw.dma[reg]);
        }
        assert forall|slot: (ModeReg, usize)| other_slot(alloc, n, slot) implies
            #[trigger] after.tx_en[slot] == hw.tx_en[slot] by {
            assert(other_slot(alloc, k, slot));
            assert(mid.tx_en[slot] == hw.tx_en[slot]);
        }
        assert forall|slot: (ModeReg, usize)| other_slot(alloc, n, slot) implies
            #[trigger] after.rx_en[slot] == hw.rx_en[slot] by {
            assert(other_slot(alloc, k, slot));
            assert(mid.rx_en[slot] == hw.rx_en[slot]);
        }
        assert forall|key: (usize, Direction)| other_cut(alloc, n, key) implies
            #[trigger] after.cut[key] == hw.cut[key] by {
            assert(other_cut(alloc, k, key));
            assert(mid.cut[key] == hw.cut[key]);
        }
    }
}

/// The start sets up exactly the allocated endpoints, each with its own buffer and
/// its own direction; the control endpoint is ready to receive; the interrupt is
/// let in, without what was pending; and the bus task is woken. A bus reset of before
/// the start fails no transfer after it. Nothing else changes, and nothing of
/// endpoint 4 does.
pub proof fn law_start(hw: Hardware, ep_count: usize, alloc: Seq<EndpointData>)
    requires
        alloc_wf(alloc),
        alloc.len() == ep_count,
    ensures
        ({
            let after = run(hw, start_ops(alloc));
            &&& forall|i: int|
                1 <= i && has_buffer(ep_count, i) ==> #[trigger] started(hw, after, i, alloc[i])
            &&& after.dma[spec_ep_dma(0)] == spec_ep_buf(0)
            &&& after.ctrl[spec_ep_ctrl(0)] == UepCtrl {
                t_tog: false,
                r_tog: false,
                t_res: RES_NAK,
                r_res: RES_ACK,
            }
            &&& forall|i: int|
                1 <= i && has_buffer(ep_count, i) && !alloc[i].is_free()
                    ==> !#[trigger] after.cut[(i as usize, used_dir(alloc[i]))]
            &&& !after.cut[(0, Direction::In)]
            &&& !after.cut[(0, Direction::Out)]
            &&& forall|key: (usize, Direction)|
                key.0 != 0 && other_cut(alloc, alloc.len() as int, key)
                    ==> #[trigger] after.cut[key] == hw.cut[key]
            &&& !after.interrupt_pending
            &&& after.interrupt_enabled
            &&& after.woken == hw.woken.insert(WakerId::Bus)
            &&& forall|reg: CtrlReg|
                reg != spec_ep_ctrl(0) && other_ctrl(alloc, alloc.len() as int, reg)
                    ==> #[trigger] after.ctrl[reg] == hw.ctrl[reg]
            &&& forall|reg: DmaReg|
                reg != spec_ep_dma(0) && other_dma(alloc, alloc.len() as int, reg)
                    ==> #[trigger] after.dma[reg] == hw.dma[reg]
            &&& forall|slot: (ModeReg, usize)|
                other_slot(alloc, alloc.len() as int, slot) ==> #[trigger] after.tx_en[slot]
                    == hw.tx_en[slot]
            &&& forall|slot: (ModeReg, usize)|
                other_slot(alloc, alloc.len() as int, slot) ==> #[trigger] after.rx_en[slot]
                    == hw.rx_en[slot]
            &&& after.ctrl[spec_ep_ctrl(4)] == hw.ctrl[spec_ep_ctrl(4)]
            &&& after.tx_en[(ModeReg::Uep4_1, 0)] == hw.tx_en[(ModeReg::Uep4_1, 0)]
            &&& after.rx_en[(ModeReg::Uep4_1, 0)] == hw.rx_en[(ModeReg::Uep4_1, 0)]
            &&& after == Hardware {
                dma: after.dma,
                ctrl: after.ctrl,
                tx_en: after.tx_en,
                rx_en: after.rx_en,
                cut: after.cut,
                woken: after.woken,
                interrupt_pending: false,
                interrupt_enabled: true,
                ..hw
            }
        }),
{
    let ops = endpoints_start_ops(alloc, alloc.len() as int);
    let tail = seq![
        HwOp::WriteDma(DmaReg::Uep0123(0), EpBuf::Buf0),
        HwOp::WriteCtrl(
            CtrlReg::Uep01234(0),
            UepCtrl { t_tog: false, r_tog: false, t_res: RES_NAK, r_res: RES_ACK },
        ),
        HwOp::StoreCut { index: 0, dir: Direction::In, value: false },
        HwOp::StoreCut { index: 0, dir: Direction::Out, value: false },
        HwOp::UnpendInterrupt,
        HwOp::EnableInterrupt,
        HwOp::Wake(WakerId::Bus),
    ];
    let mid = run(hw, ops);
    let after = run(hw, start_ops(alloc));
    lemma_endpoints_start(hw, ep_count, alloc, alloc.len() as int);
    lemma_endpoints_start_others(hw, alloc, alloc.len() as int);
    lemma_run_add(hw, ops, tail);
    assert(after == run(mid, tail));
    let up = step(step(step(step(mid, tail[0]), tail[1]), tail[2]), tail[3]);
    assert(after == step(step(step(up, tail[4]), tail[5]), tail[6])) by {
        reveal_with_fuel(run, 8);
    }
    assert forall|i: int| 1 <= i && has_buffer(ep_count, i) implies #[trigger] started(
        hw,
        after,
        i,
        alloc[i],
    ) by {
        assert(started(hw, mid, i, alloc[i]));
        law_endpoints_share_nothing(ep_count, i, 0);
    }
    assert forall|i: int|
        1 <= i && has_buffer(ep_count, i) && !alloc[i].is_free() implies !#[trigger] after.cut[(
        i as usize,
        used_dir(alloc[i]),
    )] by {
        assert(started(hw, after, i, alloc[i]));
    }
    assert(other_ctrl(alloc, alloc.len() as int, spec_ep_ctrl(4)));
    assert(other_slot(alloc, alloc.len() as int, (ModeReg::Uep4_1, 0usize)));
}

/// From mode bits that are all off, the start never turns on both directions of an
/// endpoint.
pub proof fn law_start_one_direction(
    hw: Hardware,
    ep_count: usize,
    alloc: Seq<EndpointData>,
    i: int,
)
    requires
        alloc_wf(alloc),
        alloc.len() == ep_count,
        1 <= i,
        has_buffer(ep_count, i),
        !hw.tx_en[mode_slot(i)],
        !hw.rx_en[mode_slot(i)],
    ensures
        ({
            let after = run(hw, start_ops(alloc));
            &&& after.tx_en[mode_slot(i)] == alloc[i].used_in
            &&& after.rx_en[mode_slot(i)] == alloc[i].used_out
            &&& !(after.tx_en[mode_slot(i)] && after.rx_en[mode_slot(i)])
        }),
{
    law_start(hw, ep_count, alloc);
    assert(started(hw, run(hw, start_ops(alloc)), i, alloc[i]));
}

/// What bringing the peripheral up does, field by field: the pins float; the
/// peripheral is reset, and of what the reset turned off, exactly pull-up, DMA, port
/// and the driver's interrupts are turned on; pull-up and PHY follow the voltage. What
/// is not part of the peripheral stays.
pub proof fn law_init_effect(hw: Hardware, vdd: UsbVoltage)
    ensures
        run(hw, init_ops(vdd)) == (Hardware {
            floating: hw.floating.insert(UsbPin::Dp).insert(UsbPin::Dm),
            clocked: true,
            afio: AfioUsb {
                udm_pue: 0,
                udp_pue: if vdd == UsbVoltage::V33 {
                    3
                } else {
                    2
                },
                usb_phy_v33: vdd == UsbVoltage::V33,
                usb_ioen: true,
            },
            usb_ctrl: UsbCtrl { dev_pu_en: true, int_busy: true, dma_en: true },
            udev_ctrl: UdevCtrl { pd_dis: true, port_en: true },
            int_en: IntEn { bus_rst: true, transfer: true, suspend: true },
            dev_addr: 0,
            ..reset_peripheral(hw)
        }),
{
    lemma_init_states(hw, vdd);
}

/// Writes a register that the reset of the peripheral clears.
pub open spec fn is_lost_in_reset(op: HwOp) -> bool {
    op is WriteDevAd || op is WriteUsbCtrl || op is WriteUdevCtrl || op is WriteIntEn
}

/// The peripheral is clocked and reset once, before anything is written to it: a
/// write before that would be lost.
pub proof fn law_reset_before_setup(vdd: UsbVoltage, i: int, j: int)
    requires
        0 <= i < init_ops(vdd).len(),
        0 <= j < init_ops(vdd).len(),
        init_ops(vdd)[i] is EnableAndReset,
    ensures
        init_ops(vdd)[j] is EnableAndReset ==> i == j,
        is_lost_in_reset(init_ops(vdd)[j]) ==> i < j,
        init_ops(vdd)[j] is FloatPin ==> j < i,
{
}

/// Bringing the peripheral up goes from the pins inwards. When the pins are handed to
/// the PHY, they float, and the peripheral has its clock. When the port is enabled,
/// the pins are the PHY's, the device is at address 0 and its pull-up is on. When the
/// interrupts are let out, all the rest is done.
pub proof fn law_init_order(hw: Hardware, vdd: UsbVoltage, k: int)
    requires
        0 <= k < init_ops(vdd).len(),
    ensures
        ({
            let ops = init_ops(vdd);
            let part = run(hw, ops.take(k));
            let up = run(hw, ops);
            &&& ops[k] is ModifyAfio ==> part.floating.contains(UsbPin::Dp)
                && part.floating.contains(UsbPin::Dm) && part.clocked
            &&& is_lost_in_reset(ops[k]) ==> part.afio == up.afio && part.floating == up.floating
                && part.clocked
            &&& ops[k] is WriteUdevCtrl ==> part.usb_ctrl.dev_pu_en && part.dev_addr == 0
                && part.usb_ctrl.dma_en
            &&& ops[k] is WriteIntEn ==> part == Hardware { int_en: part.int_en, ..up }
        }),
{
    lemma_init_states(hw, vdd);
    assert(k == 0 || k == 1 || k == 2 || k == 3 || k == 4 || k == 5 || k == 6 || k == 7);
}

/// Brought up and started, the device has exactly the allocated directions on, each
/// with its own memory, and with its own response; no others are on, and those that
/// were allocated are not cut. Endpoint 0 makes the host wait for IN and accepts OUT.
/// The device is at address 0 with its port on, and the interrupt is let in.
pub proof fn law_up_and_started(
    hw: Hardware,
    vdd: UsbVoltage,
    ep_count: usize,
    alloc: Seq<EndpointData>,
)
    requires
        alloc_wf(alloc),
        alloc.len() == ep_count,
    ensures
        ({
            let up = run(hw, init_ops(vdd));
            let after = run(up, start_ops(alloc));
            &&& forall|i: int|
                1 <= i < 8 ==> #[trigger] after.tx_en[mode_of(i)] == (i < ep_count && i != 4
                    && alloc[i].used_in)
            &&& forall|i: int|
                1 <= i < 8 ==> #[trigger] after.rx_en[mode_of(i)] == (i < ep_count && i != 4
                    && alloc[i].used_out)
            &&& after.ctrl[ctrl_of(0)] == UepCtrl { t_tog: false, r_tog: false, t_res: 2, r_res: 0 }
            &&& forall|i: int|
                1 <= i < ep_count && i != 4 && (alloc[i].used_in || alloc[i].used_out)
                    ==> #[trigger] after.ctrl[ctrl_of(i)] == UepCtrl {
                    t_tog: false,
                    r_tog: false,
                    t_res: 2,
                    r_res: 2,
                }
            &&& after.dma[dma_of(0)] == EpBuf::Buf0
            &&& forall|i: int|
                1 <= i < ep_count && i != 4 && (alloc[i].used_in || alloc[i].used_out)
                    ==> #[trigger] after.dma[dma_of(i)] == spec_ep_buf(i)
            &&& forall|i: int|
                1 <= i < ep_count && i != 4 && (#[trigger] alloc[i]).used_in ==> !after.cut[(
                    i as usize,
                    Direction::In,
                )]
            &&& forall|i: int|
                1 <= i < ep_count && i != 4 && (#[trigger] alloc[i]).used_out ==> !after.cut[(
                    i as usize,
                    Direction::Out,
                )]
            &&& !after.cut[(0, Direction::In)]
            &&& !after.cut[(0, Direction::Out)]
            &&& after.dev_addr == 0
            &&& after.usb_ctrl.dev_pu_en && after.usb_ctrl.dma_en && after.usb_ctrl.int_busy
            &&& after.udev_ctrl.port_en && after.udev_ctrl.pd_dis
            &&& after.int_en.bus_rst && after.int_en.transfer && after.int_en.suspend
            &&& after.interrupt_enabled
            &&& !after.interrupt_pending
            &&& after.woken == hw.woken.insert(WakerId::Bus)
            &&& after.buffers == hw.buffers
        }),
{
    let up = run(hw, init_ops(vdd));
    let after = run(up, start_ops(alloc));
    law_init_effect(hw, vdd);
    law_start(up, ep_count, alloc);
    assert forall|i: int| 1 <= i < 8 implies #[trigger] after.tx_en[mode_of(i)] == (i < ep_count
        && i != 4 && alloc[i].used_in) by {
        if i < ep_count && i != 4 {
            assert(started(up, after, i, alloc[i]));
        } else {
            assert(other_slot(alloc, alloc.len() as int, mode_of(i)));
        }
    }
    assert forall|i: int| 1 <= i < 8 implies #[trigger] after.rx_en[mode_of(i)] == (i < ep_count
        && i != 4 && alloc[i].used_out) by {
        if i < ep_count && i != 4 {
            assert(started(up, after, i, alloc[i]));
        } else {
            assert(other_slot(alloc, alloc.len() as int, mode_of(i)));
        }
    }
    assert forall|i: int|
        1 <= i < ep_count && i != 4 && (alloc[i].used_in || alloc[i].used_out) implies
        #[trigger] after.ctrl[ctrl_of(i)] == (UepCtrl {
        t_tog: false,
        r_tog: false,
        t_res: 2,
        r_res: 2,
    }) by {
        assert(started(up, after, i, alloc[i]));
        assert(spec_ep_ctrl(i) == ctrl_of(i));
    }
    assert forall|i: int|
        1 <= i < ep_count && i != 4 && (alloc[i].used_in || alloc[i].used_out) implies
        #[trigger] after.dma[dma_of(i)] == spec_ep_buf(i) by {
        assert(started(up, after, i, alloc[i]));
    }
    assert forall|i: int|
        1 <= i < ep_count && i != 4 && (#[trigger] alloc[i]).used_in implies !after.cut[(
        i as usize,
        Direction::In,
    )] by {
        assert(started(up, after, i, alloc[i]));
    }
    assert forall|i: int|
        1 <= i < ep_count && i != 4 && (#[trigger] alloc[i]).used_out implies !after.cut[(
        i as usize,
        Direction::Out,
    )] by {
        assert(started(up, after, i, alloc[i]));
    }
}

/// If a mode bit of endpoint `i` has changed, its memory and its response are in
/// place.
pub open spec fn on_when_ready(hw: Hardware, part: Hardware, i: int) -> bool {
    part.tx_en[mode_of(i)] != hw.tx_en[mode_of(i)] || part.rx_en[mode_of(i)]
        != hw.rx_en[mode_of(i)] ==> part.dma[dma_of(i)] == spec_ep_buf(i) && part.ctrl[ctrl_of(i)]
        == UepCtrl { t_tog: false, r_tog: false, t_res: 2, r_res: 2 }
}

proof fn lemma_on_when_ready(
    hw: Hardware,
    ep_count: usize,
    alloc: Seq<EndpointData>,
    n: int,
    k: int,
    i: int,
)
    requires
        alloc_wf(alloc),
        alloc.len() == ep_count,
        1 <= n <= ep_count,
        1 <= i < ep_count,
        i != 4,
        0 <= k <= endpoints_start_ops(alloc, n).len(),
    ensures
        ({
            let part = run(hw, endpoints_start_ops(alloc, n).take(k));
            &&& on_when_ready(hw, part, i)
            &&& start_frame(hw, part)
        }),
    decreases n,
{
    let ops = endpoints_start_ops(alloc, n);
    if n > 1 {
        let m = n - 1;
        let head = endpoints_start_ops(alloc, m);
        let block = endpoint_start_ops(m, alloc[m]);
        let mid = run(hw, head);
        if k <= head.len() {
            assert(ops.take(k) =~= head.take(k));
            lemma_on_when_ready(hw, ep_count, alloc, m, k, i);
        } else {
            let j = k - head.len();
            assert(ops.take(k) =~= head + block.take(j));
            lemma_run_add(hw, head, block.take(j));
            lemma_endpoints_start(hw, ep_count, alloc, m);
            law_driver_uses_the_endpoints_registers(i);
            law_driver_uses_the_endpoints_registers(m);
            let idle = UepCtrl { t_tog: false, r_tog: false, t_res: RES_NAK, r_res: RES_NAK };
            let key = (m as usize, used_dir(alloc[m]));
            let slot = mode_slot(m);
            let h1 = Hardware { dma: mid.dma.insert(spec_ep_dma(m), spec_ep_buf(m)), ..mid };
            let h2 = Hardware { ctrl: mid.ctrl.insert(spec_ep_ctrl(m), idle), ..h1 };
            let h3 = Hardware { cut: mid.cut.insert(key, false), ..h2 };
            let h4 = Hardware {
                tx_en: mid.tx_en.insert(slot, mid.tx_en[slot] || alloc[m].used_in),
                rx_en: mid.rx_en.insert(slot, mid.rx_en[slot] || alloc[m].used_out),
                ..h3
            };
            lemma_run_ends(mid, block);
            assert(run(mid, block.take(1)) == h1) by {
                lemma_run_take(mid, block, 0);
            }
            assert(run(mid, block.take(2)) == h2) by {
                lemma_run_take(mid, block, 1);
            }
            assert(run(mid, block.take(3)) == h3) by {
                lemma_run_take(mid, block, 2);
            }
            assert(run(mid, block.take(4)) == h4) by {
                lemma_run_take(mid, block, 3);
            }
            assert(j == 1 || j == 2 || j == 3 || j == 4);
            if i < m {
                assert(started(hw, mid, i, alloc[i]));
                law_endpoints_share_nothing(ep_count, i, m);
            } else {
                assert(untouched(hw, mid, i));
                if i > m {
                    law_endpoints_share_nothing(ep_count, i, m);
                }
            }
        }
    } else {
        lemma_run_ends(hw, ops);
    }
}

/// What the start asks for last.
spec fn start_tail() -> Seq<HwOp> {
    seq![
        HwOp::WriteDma(DmaReg::Uep0123(0), EpBuf::Buf0),
        HwOp::WriteCtrl(
            CtrlReg::Uep01234(0),
            UepCtrl { t_tog: false, r_tog: false, t_res: RES_NAK, r_res: RES_ACK },
        ),
        HwOp::StoreCut { index: 0, dir: Direction::In, value: false },
        HwOp::StoreCut { index: 0, dir: Direction::Out, value: false },
        HwOp::UnpendInterrupt,
        HwOp::EnableInterrupt,
        HwOp::Wake(WakerId::Bus),
    ]
}

proof fn lemma_start_tail(mid: Hardware, j: int)
    requires
        0 <= j <= start_tail().len(),
        !mid.interrupt_enabled,
    ensures
        ({
            let part = run(mid, start_tail().take(j));
            let after = run(mid, start_tail());
            &&& part.tx_en == mid.tx_en
            &&& part.rx_en == mid.rx_en
            &&& forall|reg: CtrlReg|
                reg != CtrlReg::Uep01234(0) ==> #[trigger] part.ctrl[reg] == mid.ctrl[reg]
            &&& forall|reg: DmaReg|
                reg != DmaReg::Uep0123(0) ==> #[trigger] part.dma[reg] == mid.dma[reg]
            &&& part.interrupt_enabled ==> part == Hardware { woken: part.woken, ..after }
            &&& !part.interrupt_enabled ==> part.woken == mid.woken
        }),
{
    let tail = start_tail();
    let ready = UepCtrl { t_tog: false, r_tog: false, t_res: RES_NAK, r_res: RES_ACK };
    let h1 = Hardware { dma: mid.dma.insert(DmaReg::Uep0123(0), EpBuf::Buf0), ..mid };
    let h2 = Hardware { ctrl: mid.ctrl.insert(CtrlReg::Uep01234(0), ready), ..h1 };
    let h3 = Hardware { cut: h2.cut.insert((0, Direction::In), false), ..h2 };
    let h4 = Hardware { cut: h3.cut.insert((0, Direction::Out), false), ..h3 };
    let h5 = Hardware { interrupt_pending: false, ..h4 };
    let h6 = Hardware { interrupt_enabled: true, ..h5 };
    let h7 = Hardware { woken: h6.woken.insert(WakerId::Bus), ..h6 };
    lemma_run_ends(mid, tail);
    assert(run(mid, tail.take(1)) == h1) by {
        lemma_run_take(mid, tail, 0);
    }
    assert(run(mid, tail.take(2)) == h2) by {
        lemma_run_take(mid, tail, 1);
    }
    assert(run(mid, tail.take(3)) == h3) by {
        lemma_run_take(mid, tail, 2);
    }
    assert(run(mid, tail.take(4)) == h4) by {
        lemma_run_take(mid, tail, 3);
    }
    assert(run(mid, tail.take(5)) == h5) by {
        lemma_run_take(mid, tail, 4);
    }
    assert(run(mid, tail.take(6)) == h6) by {
        lemma_run_take(mid, tail, 5);
    }
    assert(run(mid, tail.take(7)) == h7) by {
        lemma_run_take(mid, tail, 6);
    }
    assert(j == 0 || j == 1 || j == 2 || j == 3 || j == 4 || j == 5 || j == 6 || j == 7);
}

/// The start may be seen half done, in this order: an endpoint is turned on only when
/// its memory and its response are in place; and while the interrupt is not let in,
/// nobody is woken. Once it is let in, everything else is done.
pub proof fn law_start_order(
    hw: Hardware,
    ep_count: usize,
    alloc: Seq<EndpointData>,
    k: int,
    i: int,
)
    requires
        alloc_wf(alloc),
        alloc.len() == ep_count,
        1 <= i < ep_count,
        i != 4,
        0 <= k <= start_ops(alloc).len(),
        !hw.interrupt_enabled,
    ensures
        ({
            let ops = start_ops(alloc);
            let part = run(hw, ops.take(k));
            let after = run(hw, ops);
            &&& on_when_ready(hw, part, i)
            &&& part.interrupt_enabled ==> part == Hardware { woken: part.woken, ..after }
            &&& !part.interrupt_enabled ==> part.woken == hw.woken
        }),
{
    let ops = start_ops(alloc);
    let head = endpoints_start_ops(alloc, ep_count as int);
    let tail = start_tail();
    let mid = run(hw, head);
    assert(ops =~= head + tail);
    lemma_run_ends(hw, head);
    lemma_run_add(hw, head, tail);
    if k <= head.len() {
        assert(ops.take(k) =~= head.take(k));
        lemma_on_when_ready(hw, ep_count, alloc, ep_count as int, k, i);
    } else {
        let j = k - head.len();
        assert(ops.take(k) =~= head + tail.take(j));
        lemma_run_add(hw, head, tail.take(j));
        lemma_on_when_ready(hw, ep_count, alloc, ep_count as int, head.len() as int, i);
        lemma_start_tail(mid, j);
    }
}

} // verus!
