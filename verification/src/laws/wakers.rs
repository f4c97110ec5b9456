//! What ends a wait wakes the task that waits, with one exception: a SETUP packet
//! ends the IN waits of endpoint 0 too, but wakes only the OUT waker of endpoint 0,
//! where the task left its waker when it waited for the SETUP packet before.

use crate::bus::{reset_ops, respond_ops};
use crate::control::control_wait;
use crate::endpoint::{dir_res, dir_waker, transfer_status};
use crate::endpoints::spec_ep_ctrl;
use crate::interrupt::{interrupt_ops, InterruptStatus, TOKEN_SETUP};
use crate::laws::bus::{law_reset, law_respond};
use crate::laws::interrupts::{
    law_in_complete, law_out_complete, law_setup, lemma_interrupt, lemma_transfer,
};
use crate::model::{run, Hardware};
use crate::regs::WakerId;
use crate::usb::{Direction, EndpointAddress};
use vstd::prelude::*;

verus! {

/// An interrupt that ends the wait for a transfer of an endpoint other than
/// endpoint 0 wakes the task that waits for it.
pub proof fn law_interrupt_wakes_endpoint(
    hw: Hardware,
    ep_count: usize,
    status: InterruptStatus,
    index: int,
    dir: Direction,
)
    requires
        1 <= index < ep_count <= 8,
        transfer_status(
            hw.cut[(index as usize, dir)],
            dir_res(hw.ctrl[spec_ep_ctrl(index)], dir),
        ) is Pending,
    ensures
        ({
            let after = run(hw, interrupt_ops(ep_count, status));
            transfer_status(
                after.cut[(index as usize, dir)],
                dir_res(after.ctrl[spec_ep_ctrl(index)], dir),
            ) is Ready
                ==> after.woken.contains(dir_waker(index, dir))
        }),
{
    lemma_interrupt(hw, ep_count, status);
    lemma_transfer(hw, ep_count, status);
    law_setup(hw);
    law_in_complete(hw, status.endp as int);
    law_out_complete(hw, status.endp as int, status.rx_len);
}

/// An interrupt that ends the wait for a SETUP or OUT packet on endpoint 0 wakes
/// the task that waits for it.
pub proof fn law_interrupt_wakes_control_out(
    hw: Hardware,
    ep_count: usize,
    status: InterruptStatus,
)
    requires
        1 <= ep_count <= 8,
        control_wait(hw.setup, hw.ctrl[spec_ep_ctrl(0)].r_res) is Pending,
    ensures
        ({
            let after = run(hw, interrupt_ops(ep_count, status));
            control_wait(after.setup, after.ctrl[spec_ep_ctrl(0)].r_res) is Ready
                ==> after.woken.contains(WakerId::Out(0))
        }),
{
    lemma_interrupt(hw, ep_count, status);
    lemma_transfer(hw, ep_count, status);
    law_setup(hw);
    law_in_complete(hw, status.endp as int);
    law_out_complete(hw, status.endp as int, status.rx_len);
}

/// An interrupt other than for a SETUP packet that ends the wait for an IN packet
/// on endpoint 0 wakes the task that waits for it.
pub proof fn law_interrupt_wakes_control_in(hw: Hardware, ep_count: usize, status: InterruptStatus)
    requires
        1 <= ep_count <= 8,
        !status.int_fg.transfer || status.token != TOKEN_SETUP,
        control_wait(hw.setup, hw.ctrl[spec_ep_ctrl(0)].t_res) is Pending,
    ensures
        ({
            let after = run(hw, interrupt_ops(ep_count, status));
            control_wait(after.setup, after.ctrl[spec_ep_ctrl(0)].t_res) is Ready
                ==> after.woken.contains(WakerId::In(0))
        }),
{
    lemma_interrupt(hw, ep_count, status);
    lemma_transfer(hw, ep_count, status);
    law_in_complete(hw, status.endp as int);
    law_out_complete(hw, status.endp as int, status.rx_len);
}

/// Enabling, disabling, stalling or unstalling an endpoint wakes the task that
/// waits for it; so does a bus reset, for every endpoint of the table.
pub proof fn law_bus_wakes_endpoint(
    hw: Hardware,
    addr: EndpointAddress,
    t_res: u8,
    r_res: u8,
    ep_count: int,
)
    requires
        addr.spec_index() < ep_count <= 8,
    ensures
        run(hw, respond_ops(addr, t_res, r_res)).woken.contains(
            dir_waker(addr.spec_index(), addr.spec_direction()),
        ),
        run(hw, reset_ops(ep_count)).woken.contains(
            dir_waker(addr.spec_index(), addr.spec_direction()),
        ),
{
    law_respond(hw, addr, t_res, r_res);
    law_reset(hw, ep_count);
}

} // verus!
