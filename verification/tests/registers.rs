//! Where endpoints live, and single operations.

use usbfs::endpoints::{
    enable_ep_mode, ep_buf_ptr, ep_ctrl, ep_dma, ep_t_len, EndpointBuffer,
};
use usbfs::regs::{
    CtrlReg, CtrlUpdate, DmaReg, EpBuf, HwOp, ModeReg, TLenReg, UepCtrl, Usbd, RES_ACK, RES_NAK,
    RES_STALL,
};

fn mode<const N: usize>(index: usize, used_in: bool, used_out: bool) -> HwOp {
    let mut usb = Usbd::new();
    enable_ep_mode::<N>(&mut usb, index, used_in, used_out);
    let ops = usb.into_ops();
    assert_eq!(ops.len(), 1);
    ops[0]
}

#[test]
fn response_codes() {
    assert_eq!(RES_ACK, 0);
    assert_eq!(RES_NAK, 2);
    assert_eq!(RES_STALL, 3);
}

#[test]
fn control_registers_come_in_two_groups() {
    assert_eq!(ep_ctrl::<4>(0), CtrlReg::Uep01234(0));
    assert_eq!(ep_ctrl::<4>(3), CtrlReg::Uep01234(3));
    assert_eq!(ep_ctrl::<8>(4), CtrlReg::Uep01234(4));
    assert_eq!(ep_ctrl::<8>(5), CtrlReg::Uep567(0));
    assert_eq!(ep_ctrl::<8>(7), CtrlReg::Uep567(2));
}

#[test]
fn length_registers_come_in_two_groups() {
    assert_eq!(ep_t_len::<4>(0), TLenReg::Uep01234(0));
    assert_eq!(ep_t_len::<4>(2), TLenReg::Uep01234(2));
    assert_eq!(ep_t_len::<8>(6), TLenReg::Uep567(1));
}

#[test]
fn dma_registers_come_in_two_groups() {
    assert_eq!(ep_dma::<4>(0), DmaReg::Uep0123(0));
    assert_eq!(ep_dma::<4>(3), DmaReg::Uep0123(3));
    assert_eq!(ep_dma::<8>(5), DmaReg::Uep567(0));
    assert_eq!(ep_dma::<8>(7), DmaReg::Uep567(2));
}

#[test]
fn buffers_are_distinct() {
    let bufs = [
        ep_buf_ptr::<8>(0),
        ep_buf_ptr::<8>(1),
        ep_buf_ptr::<8>(2),
        ep_buf_ptr::<8>(3),
        ep_buf_ptr::<8>(5),
        ep_buf_ptr::<8>(6),
        ep_buf_ptr::<8>(7),
    ];
    assert_eq!(
        bufs,
        [
            EpBuf::Buf0,
            EpBuf::Buf1,
            EpBuf::Buf2,
            EpBuf::Buf3,
            EpBuf::Buf5,
            EpBuf::Buf6,
            EpBuf::Buf7
        ]
    );
    for i in 0..bufs.len() {
        for j in 0..i {
            assert_ne!(bufs[i], bufs[j]);
        }
    }
}

#[test]
fn mode_bits_of_each_endpoint() {
    let slot = |index: usize| match mode::<8>(index, true, false) {
        HwOp::ModifyMode { reg, n, tx_en, rx_en } => {
            assert!(tx_en && !rx_en);
            (reg, n)
        }
        _ => panic!("not a mode operation"),
    };
    assert_eq!(slot(1), (ModeReg::Uep4_1, 1));
    assert_eq!(slot(2), (ModeReg::Uep2_3, 0));
    assert_eq!(slot(3), (ModeReg::Uep2_3, 1));
    assert_eq!(slot(5), (ModeReg::Uep567, 0));
    assert_eq!(slot(6), (ModeReg::Uep567, 1));
    assert_eq!(slot(7), (ModeReg::Uep567, 2));
}

#[test]
fn mode_bits_follow_direction() {
    assert_eq!(
        mode::<4>(2, false, true),
        HwOp::ModifyMode { reg: ModeReg::Uep2_3, n: 0, tx_en: false, rx_en: true }
    );
    assert_eq!(
        mode::<4>(2, false, false),
        HwOp::ModifyMode { reg: ModeReg::Uep2_3, n: 0, tx_en: false, rx_en: false }
    );
}

#[test]
fn ctrl_update_flips_and_replaces() {
    let cur = UepCtrl { t_tog: true, r_tog: false, t_res: RES_ACK, r_res: RES_STALL };
    let update =
        CtrlUpdate { flip_t_tog: true, flip_r_tog: false, t_res: Some(RES_NAK), r_res: None };
    assert_eq!(
        update.apply(cur),
        UepCtrl { t_tog: false, r_tog: false, t_res: RES_NAK, r_res: RES_STALL }
    );
    assert_eq!(
        CtrlUpdate::set_r_res(RES_ACK).apply(cur),
        UepCtrl { t_tog: true, r_tog: false, t_res: RES_ACK, r_res: RES_ACK }
    );
    assert_eq!(
        CtrlUpdate::set_t_res(RES_STALL).apply(cur),
        UepCtrl { t_tog: true, r_tog: false, t_res: RES_STALL, r_res: RES_STALL }
    );
    let both = CtrlUpdate { flip_t_tog: false, flip_r_tog: true, t_res: None, r_res: None };
    assert_eq!(both.apply(both.apply(cur)), cur);
}

#[test]
fn buffer_read_copies_a_prefix() {
    let buffer = EndpointBuffer { ptr: EpBuf::Buf1, len: 64 };
    let mut mem = [0u8; 64];
    for i in 0..64 {
        mem[i] = i as u8 + 1;
    }
    let mut out = [0xaau8; 5];
    buffer.read(&mem, &mut out, 3);
    assert_eq!(out, [1, 2, 3, 0xaa, 0xaa]);
    let mut all = [0u8; 64];
    buffer.read(&mem, &mut all, 64);
    assert_eq!(all, mem);
}

#[test]
fn buffer_write_stores_each_byte() {
    let buffer = EndpointBuffer { ptr: EpBuf::Buf3, len: 64 };
    let mut usb = Usbd::new();
    buffer.write(&mut usb, &[9, 8]);
    assert_eq!(
        usb.into_ops(),
        vec![
            HwOp::StoreByte { buf: EpBuf::Buf3, offset: 0, value: 9 },
            HwOp::StoreByte { buf: EpBuf::Buf3, offset: 1, value: 8 },
        ]
    );
}
