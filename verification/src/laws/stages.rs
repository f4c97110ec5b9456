//! Stages of a control transfer from their start to their end, step by step: each
//! step goes on from the stage in which the step before left off.

use crate::bus::event_ops;
use crate::control::{
    control_wait, data_in_next, data_in_ops, data_in_step, data_out_into, data_out_next,
    data_out_ops, data_out_step, forget, reject_ops, set_address_ops, setup_next, setup_packet,
    setup_step, setup_step_ops, status_next, status_step, status_step_ops, ControlLook, Stage, Step,
};
use crate::endpoints::spec_ep_buf;
use crate::interrupt::{interrupt_ops, InterruptStatus};
use crate::laws::bus::law_reset_event;
use crate::laws::control::{law_receive, law_reject, law_status, look};
use crate::laws::interrupts::{
    law_in_complete, law_in_interrupt, law_out_complete, law_out_interrupt, law_setup,
    law_setup_interrupt, lemma_interrupt, lemma_transfer,
};
use crate::laws::transfers::{law_queue, law_write_answers_last};
use crate::model::{
    ctrl_of, dma_of, host_packet, host_sent, lemma_run_1, lemma_run_3, lemma_run_ends,
    lemma_run_take, run, t_len_of, Hardware,
};
use crate::regs::{EpBuf, HwOp, UepCtrl, WakerId};
use crate::usb::{Direction, EndpointError, Event, Poll};
use vstd::prelude::*;

verus! {

/// Receiving a chunk fills the caller's buffer at its end alone, and only if it
/// succeeds: the first bytes become those of the packet, the bytes behind them stay.
pub proof fn law_data_out_into(
    stage: Stage,
    look: ControlLook,
    mem: Seq<u8>,
    buf: Seq<u8>,
    k: int,
)
    requires
        0 <= k < buf.len(),
        mem.len() == 64,
        look.out_len <= 64,
    ensures
        ({
            let step = data_out_step(stage, look, buf.len());
            let after = data_out_into(step, mem, buf);
            &&& after.len() == buf.len()
            &&& after[k] == if stage == Stage::Ending && !look.cut_out && !look.setup
                && look.out_len <= buf.len() && k < look.out_len {
                mem[k]
            } else {
                buf[k]
            }
        }),
{
}

/// A SETUP packet is the first eight bytes of the buffer.
pub proof fn law_setup_packet(mem: Seq<u8>, k: int)
    requires
        mem.len() == 64,
        0 <= k < 8,
    ensures
        setup_packet(mem).len() == 8,
        setup_packet(mem)[k] == mem[k],
{
}

/// A wait for the host is over exactly when a SETUP packet is noted, which comes
/// first, or the direction is at NAK.
pub proof fn law_control_wait_exact(setup: bool, res: u8)
    ensures
        control_wait(setup, res) == Poll::Ready(true) <==> setup,
        control_wait(setup, res) == Poll::Ready(false) <==> !setup && res == 2,
        control_wait(setup, res) is Pending <==> !setup && res != 2,
{
}

/// How receiving a chunk ends that is at `stage` when it takes look number `i`: the
/// number of the look at which it is done, and the result.
pub open spec fn data_out_end(
    stage: Stage,
    looks: Seq<ControlLook>,
    i: int,
    buf_len: nat,
) -> Option<(int, Result<usize, EndpointError>)>
    decreases looks.len() - i,
{
    if i < 0 || i >= looks.len() {
        None
    } else {
        match data_out_step(stage, looks[i], buf_len) {
            Step::Done(r) => Some((i, r)),
            _ => data_out_end(data_out_next(stage, looks[i]), looks, i + 1, buf_len),
        }
    }
}

/// All that this asks for.
pub open spec fn data_out_trace(stage: Stage, looks: Seq<ControlLook>, i: int, buf_len: nat) -> Seq<
    HwOp,
>
    decreases looks.len() - i,
{
    if i < 0 || i >= looks.len() {
        Seq::empty()
    } else if data_out_step(stage, looks[i], buf_len) is Done {
        data_out_ops(stage, looks[i])
    } else {
        data_out_ops(stage, looks[i]) + data_out_trace(
            data_out_next(stage, looks[i]),
            looks,
            i + 1,
            buf_len,
        )
    }
}

/// How sending a chunk ends.
pub open spec fn data_in_end(
    stage: Stage,
    looks: Seq<ControlLook>,
    i: int,
    len: nat,
    max: u16,
) -> Option<(int, Result<(), EndpointError>)>
    decreases looks.len() - i,
{
    if i < 0 || i >= looks.len() {
        None
    } else {
        match data_in_step(stage, looks[i], len, max) {
            Step::Done(r) => Some((i, r)),
            _ => data_in_end(data_in_next(stage, looks[i], len, max), looks, i + 1, len, max),
        }
    }
}

/// How the status stage ends.
pub open spec fn status_end(stage: Stage, looks: Seq<ControlLook>, i: int) -> Option<(int, bool)>
    decreases looks.len() - i,
{
    if i < 0 || i >= looks.len() {
        None
    } else {
        match status_step(stage, looks[i]) {
            Step::Done(r) => Some((i, r)),
            _ => status_end(status_next(stage, looks[i]), looks, i + 1),
        }
    }
}

/// When the wait for a SETUP packet ends. The packets are what the buffer holds when
/// each look is taken.
pub open spec fn setup_end<R>(
    stage: Stage,
    looks: Seq<ControlLook>,
    packets: Seq<R>,
    i: int,
) -> Option<(int, R)>
    decreases looks.len() - i,
{
    if i < 0 || i >= looks.len() {
        None
    } else {
        match setup_step(stage, looks[i], packets[i]) {
            Step::Done(r) => Some((i, r)),
            _ => setup_end(setup_next(stage, looks[i]), looks, packets, i + 1),
        }
    }
}

/// What ends the wait for an OUT packet on endpoint 0.
pub open spec fn out_over(look: ControlLook) -> bool {
    look.cut_out || look.setup || look.ctrl.r_res == 2
}

/// What ends the wait for the host to fetch a packet from endpoint 0.
pub open spec fn in_over(look: ControlLook) -> bool {
    look.cut_in || look.setup || look.ctrl.t_res == 2
}

proof fn lemma_data_out_waits(looks: Seq<ControlLook>, i: int, j: int, buf_len: nat)
    requires
        0 <= i <= j <= looks.len(),
        forall|k: int| i <= k < j ==> !out_over(#[trigger] looks[k]),
    ensures
        data_out_end(Stage::Waiting, looks, i, buf_len) == data_out_end(
            Stage::Waiting,
            looks,
            j,
            buf_len,
        ),
        data_out_trace(Stage::Waiting, looks, i, buf_len) == data_out_trace(
            Stage::Waiting,
            looks,
            j,
            buf_len,
        ),
    decreases j - i,
{
    if i < j {
        assert(!out_over(looks[i]));
        lemma_data_out_waits(looks, i + 1, j, buf_len);
        assert(data_out_ops(Stage::Waiting, looks[i]) + data_out_trace(
            Stage::Waiting,
            looks,
            i + 1,
            buf_len,
        ) =~= data_out_trace(Stage::Waiting, looks, i + 1, buf_len));
    }
}

/// Receiving a chunk, whatever is seen: let `j` be the first look after the one at
/// the start that sees the OUT direction at NAK, a SETUP packet or a reset. Before
/// `j`, and without such a look, it is not done. A reset fails it at once, at the
/// start or at `j`. Otherwise it is done at the look after `j`: with failure if that
/// sees a reset or a SETUP packet; with an overflow if the length that it sees is
/// larger than the buffer; and else with that length.
pub proof fn law_data_out_run(looks: Seq<ControlLook>, j: int, buf_len: nat)
    requires
        1 <= j <= looks.len(),
        forall|k: int| 1 <= k < j ==> !out_over(#[trigger] looks[k]),
        j < looks.len() ==> out_over(looks[j]),
    ensures
        ({
            let failed = Err::<usize, EndpointError>(EndpointError::Disabled);
            data_out_end(Stage::Start, looks, 0, buf_len) == if looks[0].cut_out {
                Some((0, failed))
            } else if j == looks.len() {
                None
            } else if looks[j].cut_out {
                Some((j, failed))
            } else if j + 1 == looks.len() {
                None
            } else if looks[j + 1].cut_out || looks[j + 1].setup {
                Some((j + 1, failed))
            } else if looks[j + 1].out_len > buf_len {
                Some((j + 1, Err(EndpointError::BufferOverflow)))
            } else {
                Some((j + 1, Ok(looks[j + 1].out_len as usize)))
            }
        }),
{
    if !looks[0].cut_out {
        lemma_data_out_waits(looks, 1, j, buf_len);
        reveal_with_fuel(data_out_end, 3);
    }
}

/// A chunk is received only after the host has sent it: if receiving ends with
/// success, then some look after the one at which the packet was let in, and before
/// the last, saw the OUT direction back at NAK, with no SETUP packet noted and no
/// reset; and the length is the one that the last look sees. The looks are such that a
/// SETUP packet that is noted stays noted, see [`law_setup_note_stays`].
pub proof fn law_data_out_waits_for_packet(looks: Seq<ControlLook>, buf_len: nat, m: int, n: usize)
    requires
        data_out_end(Stage::Start, looks, 0, buf_len) == Some((m, Ok::<usize, EndpointError>(n))),
        forall|a: int, b: int|
            0 <= a < b < looks.len() && #[trigger] looks[a].setup ==> #[trigger] looks[b].setup,
    ensures
        2 <= m < looks.len(),
        exists|j: int|
            1 <= j < m && (#[trigger] looks[j]).ctrl.r_res == 2 && !looks[j].setup
                && !looks[j].cut_out,
        n == looks[m].out_len,
        n <= buf_len,
        !looks[m].setup,
        !looks[m].cut_out,
{
    let j = first_out_over(looks, 1);
    lemma_first_out_over(looks, 1);
    if looks.len() > 0 {
        law_data_out_run(looks, j, buf_len);
        assert(looks[j].setup ==> looks[j + 1].setup);
    }
}

/// The first look from number `i` on that ends the wait for an OUT packet.
pub open spec fn first_out_over(looks: Seq<ControlLook>, i: int) -> int
    decreases looks.len() - i,
{
    if i >= looks.len() || out_over(looks[i]) {
        i
    } else {
        first_out_over(looks, i + 1)
    }
}

proof fn lemma_first_out_over(looks: Seq<ControlLook>, i: int)
    requires
        0 <= i,
    ensures
        ({
            let j = first_out_over(looks, i);
            &&& i <= j
            &&& i <= looks.len() ==> j <= looks.len()
            &&& j < looks.len() ==> out_over(looks[j])
            &&& forall|k: int| i <= k < j ==> !out_over(#[trigger] looks[k])
        }),
    decreases looks.len() - i,
{
    if !(i >= looks.len() || out_over(looks[i])) {
        lemma_first_out_over(looks, i + 1);
    }
}

/// Receiving a chunk asks for one thing only, at its first step: that the packet be
/// let in. The later steps ask for nothing.
pub proof fn law_data_out_asks_once(looks: Seq<ControlLook>, buf_len: nat)
    requires
        looks.len() > 0,
    ensures
        data_out_trace(Stage::Start, looks, 0, buf_len) == data_out_ops(Stage::Start, looks[0]),
{
    let j = first_out_over(looks, 1);
    let first = data_out_ops(Stage::Start, looks[0]);
    lemma_first_out_over(looks, 1);
    if !looks[0].cut_out {
        lemma_data_out_waits(looks, 1, j, buf_len);
        reveal_with_fuel(data_out_trace, 3);
        assert(data_out_trace(Stage::Waiting, looks, j, buf_len) =~= Seq::empty());
        assert(first + Seq::empty() =~= first);
    }
}

proof fn lemma_data_in_waits(looks: Seq<ControlLook>, i: int, j: int, len: nat, max: u16)
    requires
        0 <= i <= j <= looks.len(),
        forall|k: int| i <= k < j ==> !in_over(#[trigger] looks[k]),
    ensures
        data_in_end(Stage::Waiting, looks, i, len, max) == data_in_end(
            Stage::Waiting,
            looks,
            j,
            len,
            max,
        ),
        status_end(Stage::Waiting, looks, i) == status_end(Stage::Waiting, looks, j),
    decreases j - i,
{
    if i < j {
        assert(!in_over(looks[i]));
        lemma_data_in_waits(looks, i + 1, j, len, max);
    }
}

/// Sending a chunk, whatever is seen: a chunk longer than a packet overflows at once.
/// Otherwise let `j` be the first look after the one at the start that sees the IN
/// direction at NAK, a SETUP packet or a reset. A reset fails it at once, at the start
/// or at `j`. Otherwise it is done at the look after `j`: with failure if that sees a
/// reset or a SETUP packet, and else with success.
pub proof fn law_data_in_run(looks: Seq<ControlLook>, j: int, len: nat, max: u16)
    requires
        1 <= j <= looks.len(),
        forall|k: int| 1 <= k < j ==> !in_over(#[trigger] looks[k]),
        j < looks.len() ==> in_over(looks[j]),
    ensures
        ({
            let failed = Err::<(), EndpointError>(EndpointError::Disabled);
            data_in_end(Stage::Start, looks, 0, len, max) == if len > max {
                Some((0, Err(EndpointError::BufferOverflow)))
            } else if looks[0].cut_in {
                Some((0, failed))
            } else if j == looks.len() {
                None
            } else if looks[j].cut_in {
                Some((j, failed))
            } else if j + 1 == looks.len() {
                None
            } else if looks[j + 1].cut_in || looks[j + 1].setup {
                Some((j + 1, failed))
            } else {
                Some((j + 1, Ok(())))
            }
        }),
{
    if len <= max && !looks[0].cut_in {
        lemma_data_in_waits(looks, 1, j, len, max);
        reveal_with_fuel(data_in_end, 3);
    }
}

/// The status stage, whatever is seen: with `j` as above, it is done at `j`, and it
/// is complete exactly if that look sees the IN direction at NAK, no SETUP packet and
/// no reset. A reset before it began ends it at once, incomplete.
pub proof fn law_status_run(looks: Seq<ControlLook>, j: int)
    requires
        1 <= j <= looks.len(),
        forall|k: int| 1 <= k < j ==> !in_over(#[trigger] looks[k]),
        j < looks.len() ==> in_over(looks[j]),
    ensures
        status_end(Stage::Start, looks, 0) == if looks[0].cut_in {
            Some((0int, false))
        } else if j == looks.len() {
            None
        } else {
            Some((j, looks[j].ctrl.t_res == 2 && !looks[j].setup && !looks[j].cut_in))
        },
{
    if !looks[0].cut_in {
        lemma_data_in_waits(looks, 1, j, 0, 0);
        reveal_with_fuel(status_end, 2);
    }
}

/// The wait for a SETUP packet, whatever is seen: with `j` the first look that sees
/// one noted, it is done at the look after `j`, with what the buffer holds then.
pub proof fn law_setup_run<R>(looks: Seq<ControlLook>, packets: Seq<R>, i: int, j: int)
    requires
        0 <= i <= j <= looks.len(),
        forall|k: int| i <= k < j ==> !(#[trigger] looks[k]).setup,
        j < looks.len() ==> looks[j].setup,
    ensures
        setup_end(Stage::Start, looks, packets, i) == if j + 1 < looks.len() {
            Some((j + 1, packets[j + 1]))
        } else {
            None
        },
    decreases j - i,
{
    if i < j {
        assert(!looks[i].setup);
        law_setup_run(looks, packets, i + 1, j);
    } else {
        reveal_with_fuel(setup_end, 3);
    }
}

/// Accepting a request goes on, and is over, exactly as its status stage does.
pub proof fn law_accept_is_status_stage(stage: Stage, look: ControlLook)
    ensures
        ({
            let step = status_step(stage, look);
            &&& forget(step) is Again <==> step is Again
            &&& forget(step) is Wait <==> step is Wait
            &&& forget(step) is Done <==> step is Done
        }),
{
}

/// When the steps wait, when they go on at once, and when they are over: each waits
/// exactly while it is up to the host and nothing has ended the wait; each goes on at
/// once exactly when the stage moves on; and the stage stays where it is otherwise.
pub proof fn law_steps_exact<R>(
    stage: Stage,
    look: ControlLook,
    buf_len: nat,
    len: nat,
    max: u16,
    packet: R,
)
    ensures
        data_out_step(stage, look, buf_len) is Done <==> look.cut_out || stage == Stage::Ending,
        data_out_step(stage, look, buf_len) is Wait <==> stage == Stage::Waiting && !out_over(look),
        data_out_step(stage, look, buf_len) is Again <==> data_out_next(stage, look) != stage,
        data_in_step(stage, look, len, max) is Done <==> look.cut_in || stage == Stage::Ending
            || stage == Stage::Start && len > max,
        data_in_step(stage, look, len, max) is Wait <==> stage == Stage::Waiting && !in_over(look),
        data_in_step(stage, look, len, max) is Again <==> data_in_next(stage, look, len, max)
            != stage,
        status_step(stage, look) is Done <==> look.cut_in || stage != Stage::Start && in_over(look),
        status_step(stage, look) == Step::Done(true) <==> stage != Stage::Start && !look.cut_in
            && !look.setup && look.ctrl.t_res == 2,
        status_step(stage, look) is Wait <==> stage != Stage::Start && !in_over(look),
        status_step(stage, look) is Again <==> status_next(stage, look) != stage,
        setup_step(stage, look, packet) == Step::Done(packet) <==> stage == Stage::Ending,
        setup_step(stage, look, packet) is Wait <==> stage != Stage::Ending && !look.setup,
        setup_step(stage, look, packet) is Again <==> setup_next(stage, look) != stage,
{
}

/// Letting a packet in sets the response of endpoint 0 to OUT tokens to ACK and does
/// nothing else; it happens at the start of receiving a chunk, unless a reset has cut
/// the transfer, and at no other step of it.
pub proof fn law_data_out_effect(hw: Hardware, stage: Stage, seen: ControlLook)
    ensures
        ({
            let cur = hw.ctrl[ctrl_of(0)];
            run(hw, data_out_ops(stage, seen)) == if stage == Stage::Start && !seen.cut_out {
                Hardware {
                    ctrl: hw.ctrl.insert(
                        ctrl_of(0),
                        UepCtrl { t_tog: cur.t_tog, r_tog: cur.r_tog, t_res: cur.t_res, r_res: 0 },
                    ),
                    ..hw
                }
            } else {
                hw
            }
        }),
{
    law_receive(hw);
}

/// What sending a chunk does at each step: at the start, unless it is too long or a
/// reset has cut the transfer, the chunk becomes what the host fetches from endpoint
/// 0, which answers IN tokens with ACK; at the end of the last chunk, unless a reset or
/// a SETUP packet came in between, OUT tokens are answered with ACK; and nothing else
/// ever changes.
pub proof fn law_data_in_effect(
    hw: Hardware,
    stage: Stage,
    seen: ControlLook,
    data: Seq<u8>,
    last: bool,
    max: u16,
)
    requires
        hw.dma[dma_of(0)] == spec_ep_buf(0),
        hw.buffers[hw.dma[dma_of(0)]].len() == 64,
        data.len() <= max ==> data.len() <= 64,
    ensures
        ({
            let cur = hw.ctrl[ctrl_of(0)];
            let buf = hw.dma[dma_of(0)];
            let after = run(hw, data_in_ops(stage, seen, data, last, max));
            if stage == Stage::Start && data.len() <= max && !seen.cut_in {
                &&& after == Hardware {
                    ctrl: hw.ctrl.insert(
                        ctrl_of(0),
                        UepCtrl { t_tog: cur.t_tog, r_tog: cur.r_tog, t_res: 0, r_res: cur.r_res },
                    ),
                    t_len: hw.t_len.insert(t_len_of(0), data.len() as u8),
                    buffers: after.buffers,
                    ..hw
                }
                &&& host_packet(after, 0) == data
                &&& after.buffers[buf] == data + hw.buffers[buf].skip(data.len() as int)
                &&& forall|b: EpBuf|
                    b != buf ==> #[trigger] after.buffers[b] == hw.buffers[b]
            } else if stage == Stage::Ending && last && !seen.setup && !seen.cut_in {
                after == Hardware {
                    ctrl: hw.ctrl.insert(
                        ctrl_of(0),
                        UepCtrl { t_tog: cur.t_tog, r_tog: cur.r_tog, t_res: cur.t_res, r_res: 0 },
                    ),
                    ..hw
                }
            } else {
                after == hw
            }
        }),
{
    let after = run(hw, data_in_ops(stage, seen, data, last, max));
    law_receive(hw);
    if data.len() <= max {
        law_queue(hw, 0, data);
        if stage == Stage::Start && !seen.cut_in {
            assert(host_packet(after, 0) =~= data);
        }
    }
}

/// Endpoint 0 answers only when its packet is complete: the response is the last
/// thing that changes when a chunk, or the empty packet of the status stage, is
/// queued.
pub proof fn law_control_answers_last(
    hw: Hardware,
    seen: ControlLook,
    data: Seq<u8>,
    last: bool,
    max: u16,
    addr: u8,
    k: int,
)
    requires
        hw.dma[dma_of(0)] == spec_ep_buf(0),
        hw.buffers[hw.dma[dma_of(0)]].len() == 64,
        data.len() <= max,
        data.len() <= 64,
        !seen.cut_in,
    ensures
        ({
            let ops = data_in_ops(Stage::Start, seen, data, last, max);
            let part = run(hw, ops.take(k));
            0 <= k <= ops.len() ==> part.ctrl == hw.ctrl || part == run(hw, ops) && host_packet(
                part,
                0,
            ) == data
        }),
        ({
            let ops = set_address_ops(Stage::Start, seen, addr);
            let part = run(hw, ops.take(k));
            0 <= k <= ops.len() ==> part.ctrl == hw.ctrl || part == run(hw, ops) && host_packet(
                part,
                0,
            ) == Seq::<u8>::empty()
        }),
{
    let ops = set_address_ops(Stage::Start, seen, addr);
    if 0 <= k <= data_in_ops(Stage::Start, seen, data, last, max).len() {
        law_write_answers_last(hw, 0, data, k);
    }
    law_status(hw);
    assert(host_packet(run(hw, ops), 0) =~= Seq::<u8>::empty());
    lemma_run_ends(hw, ops);
    lemma_run_take(hw, ops, 0);
    lemma_run_take(hw, ops, 1);
}

/// What the status stage does at each step: at the start, unless a reset has cut the
/// transfer, the host is answered with an empty packet, and nothing else ever changes.
/// Accepting an address does the same, and changes the address exactly at the step
/// that finds the stage complete.
pub proof fn law_status_effect(hw: Hardware, stage: Stage, seen: ControlLook, addr: u8)
    ensures
        ({
            let cur = hw.ctrl[ctrl_of(0)];
            let answered = Hardware {
                ctrl: hw.ctrl.insert(
                    ctrl_of(0),
                    UepCtrl { t_tog: cur.t_tog, r_tog: cur.r_tog, t_res: 0, r_res: cur.r_res },
                ),
                t_len: hw.t_len.insert(t_len_of(0), 0),
                ..hw
            };
            &&& run(hw, status_step_ops(stage, seen)) == if stage == Stage::Start && !seen.cut_in {
                answered
            } else {
                hw
            }
            &&& run(hw, set_address_ops(stage, seen, addr)) == if seen.cut_in {
                hw
            } else if stage == Stage::Start {
                answered
            } else if !seen.setup && seen.ctrl.t_res == 2 {
                Hardware { dev_addr: addr, ..hw }
            } else {
                hw
            }
        }),
{
    law_status(hw);
    lemma_run_1(hw, HwOp::ModifyDevAd(addr));
}

/// What the wait for a SETUP packet does at each step: the step that sees one noted
/// takes the note away first of all, and then the notes of a reset on endpoint 0; the
/// others do nothing.
pub proof fn law_setup_effect(hw: Hardware, stage: Stage, seen: ControlLook, k: int)
    ensures
        ({
            let ops = setup_step_ops(stage, seen);
            let part = run(hw, ops.take(k));
            &&& run(hw, ops) == if stage != Stage::Ending && seen.setup {
                Hardware {
                    setup: false,
                    cut: hw.cut.insert((0, Direction::In), false).insert(
                        (0, Direction::Out),
                        false,
                    ),
                    ..hw
                }
            } else {
                hw
            }
            &&& 0 <= k <= ops.len() && part != hw ==> !part.setup
        }),
{
    let ops = setup_step_ops(stage, seen);
    lemma_run_3(
        hw,
        HwOp::StoreSetup(false),
        HwOp::StoreCut { index: 0, dir: Direction::In, value: false },
        HwOp::StoreCut { index: 0, dir: Direction::Out, value: false },
    );
    lemma_run_ends(hw, ops);
    if ops.len() == 3 {
        lemma_run_take(hw, ops, 0);
        lemma_run_take(hw, ops, 1);
        lemma_run_take(hw, ops, 2);
    }
}

/// Refusing a request makes both directions of endpoint 0 answer STALL and does
/// nothing else.
pub proof fn law_reject_effect(hw: Hardware)
    ensures
        ({
            let cur = hw.ctrl[ctrl_of(0)];
            run(hw, reject_ops()) == Hardware {
                ctrl: hw.ctrl.insert(
                    ctrl_of(0),
                    UepCtrl { t_tog: cur.t_tog, r_tog: cur.r_tog, t_res: 3, r_res: 3 },
                ),
                ..hw
            }
        }),
{
    law_reject(hw);
}

/// A SETUP packet that is noted stays noted until it is picked up: neither another
/// interrupt, nor a step of another stage, nor a bus reset takes the note away.
pub proof fn law_setup_note_stays(
    hw: Hardware,
    ep_count: usize,
    status: InterruptStatus,
    stage: Stage,
    seen: ControlLook,
    data: Seq<u8>,
    last: bool,
    max: u16,
    addr: u8,
)
    requires
        ep_count == 4 || ep_count == 8,
        hw.setup,
        hw.dma[dma_of(0)] == spec_ep_buf(0),
        hw.buffers[hw.dma[dma_of(0)]].len() == 64,
        data.len() <= max ==> data.len() <= 64,
    ensures
        run(hw, interrupt_ops(ep_count, status)).setup,
        run(hw, data_out_ops(stage, seen)).setup,
        run(hw, data_in_ops(stage, seen, data, last, max)).setup,
        run(hw, status_step_ops(stage, seen)).setup,
        run(hw, set_address_ops(stage, seen, addr)).setup,
        run(hw, reject_ops()).setup,
        run(hw, event_ops(ep_count as int, Poll::Ready(Event::Reset))).setup,
{
    lemma_interrupt(hw, ep_count, status);
    law_setup(hw);
    law_in_complete(hw, status.endp as int);
    law_out_complete(hw, status.endp as int, status.rx_len);
    law_data_out_effect(hw, stage, seen);
    law_data_in_effect(hw, stage, seen, data, last, max);
    law_status_effect(hw, stage, seen, addr);
    law_reject_effect(hw);
    law_reset_event(hw, ep_count as int);
}

/// A number of interrupts, one after the other.
pub open spec fn interrupted(
    hw: Hardware,
    ep_count: usize,
    irqs: Seq<InterruptStatus>,
) -> Hardware
    decreases irqs.len(),
{
    if irqs.len() == 0 {
        hw
    } else {
        run(interrupted(hw, ep_count, irqs.drop_last()), interrupt_ops(ep_count, irqs.last()))
    }
}

/// An interrupt that is not for a SETUP packet, nor for the completion of a transfer
/// of endpoint 0 with the given token.
pub open spec fn unrelated(status: InterruptStatus, token: u8) -> bool {
    !status.int_fg.transfer || status.token != 3 && !(status.token == token && status.endp == 0)
}

proof fn lemma_interrupted_frame(hw: Hardware, ep_count: usize, irqs: Seq<InterruptStatus>)
    ensures
        ({
            let after = interrupted(hw, ep_count, irqs);
            after == Hardware {
                ctrl: after.ctrl,
                out_len: after.out_len,
                setup: after.setup,
                irq: after.irq,
                int_fg: after.int_fg,
                woken: after.woken,
                ..hw
            }
        }),
    decreases irqs.len(),
{
    if irqs.len() > 0 {
        let mid = interrupted(hw, ep_count, irqs.drop_last());
        lemma_interrupted_frame(hw, ep_count, irqs.drop_last());
        lemma_interrupt(mid, ep_count, irqs.last());
        lemma_transfer(mid, ep_count, irqs.last());
    }
}

proof fn lemma_interrupt_unrelated(hw: Hardware, ep_count: usize, status: InterruptStatus)
    ensures
        ({
            let after = run(hw, interrupt_ops(ep_count, status));
            &&& unrelated(status, 0) ==> after.ctrl[ctrl_of(0)].r_res == hw.ctrl[ctrl_of(0)].r_res
                && after.setup == hw.setup
            &&& unrelated(status, 2) ==> after.ctrl[ctrl_of(0)].t_res == hw.ctrl[ctrl_of(0)].t_res
                && after.setup == hw.setup
        }),
{
    lemma_interrupt(hw, ep_count, status);
    law_setup(hw);
    law_in_complete(hw, status.endp as int);
    law_out_complete(hw, status.endp as int, status.rx_len);
}

proof fn lemma_interrupted_unrelated(
    hw: Hardware,
    ep_count: usize,
    irqs: Seq<InterruptStatus>,
    token: u8,
)
    requires
        token == 0 || token == 2,
        forall|i: int| 0 <= i < irqs.len() ==> unrelated(#[trigger] irqs[i], token),
    ensures
        ({
            let after = interrupted(hw, ep_count, irqs);
            &&& token == 0 ==> after.ctrl[ctrl_of(0)].r_res == hw.ctrl[ctrl_of(0)].r_res
            &&& token == 2 ==> after.ctrl[ctrl_of(0)].t_res == hw.ctrl[ctrl_of(0)].t_res
            &&& after.setup == hw.setup
        }),
    decreases irqs.len(),
{
    if irqs.len() > 0 {
        let mid = interrupted(hw, ep_count, irqs.drop_last());
        assert forall|i: int| 0 <= i < irqs.drop_last().len() implies unrelated(
            #[trigger] irqs.drop_last()[i],
            token,
        ) by {
            assert(irqs.drop_last()[i] == irqs[i]);
        }
        lemma_interrupted_unrelated(hw, ep_count, irqs.drop_last(), token);
        assert(unrelated(irqs[irqs.len() - 1], token));
        lemma_interrupt_unrelated(mid, ep_count, irqs.last());
    }
}

/// Receiving a chunk on the hardware, from any state in which no SETUP packet and no
/// reset is noted. The packet is let in. However many other interrupts come, the next
/// step waits and changes nothing: what an earlier packet left is not taken for a new
/// one. When the host's packet has arrived, the task is woken, goes on at once, and is
/// done with exactly the bytes of that packet, or with an overflow if its buffer is
/// too small.
pub proof fn law_data_out_on_hardware(
    hw: Hardware,
    ep_count: usize,
    before: Seq<InterruptStatus>,
    data: Seq<u8>,
    arrived: InterruptStatus,
    buf: Seq<u8>,
)
    requires
        ep_count == 4 || ep_count == 8,
        !hw.setup,
        !hw.cut[(0, Direction::Out)],
        hw.dma[dma_of(0)] == spec_ep_buf(0),
        hw.buffers[spec_ep_buf(0)].len() == 64,
        data.len() <= 64,
        forall|i: int| 0 <= i < before.len() ==> unrelated(#[trigger] before[i], 0),
        arrived.int_fg.transfer,
        arrived.token == 0,
        arrived.endp == 0,
        arrived.rx_len == data.len(),
    ensures
        ({
            let open = run(hw, data_out_ops(Stage::Start, look(hw)));
            let stage1 = data_out_next(Stage::Start, look(hw));
            let quiet = interrupted(open, ep_count, before);
            let got = run(host_sent(quiet, 0, data), interrupt_ops(ep_count, arrived));
            let stage2 = data_out_next(stage1, look(got));
            let mem = got.buffers[spec_ep_buf(0)];
            &&& data_out_step(Stage::Start, look(hw), buf.len()) is Again
            &&& open.ctrl[ctrl_of(0)].r_res == 0
            &&& data_out_step(stage1, look(quiet), buf.len()) is Wait
            &&& data_out_next(stage1, look(quiet)) == stage1
            &&& run(quiet, data_out_ops(stage1, look(quiet))) == quiet
            &&& got.woken.contains(WakerId::Out(0))
            &&& data_out_step(stage1, look(got), buf.len()) is Again
            &&& run(got, data_out_ops(stage1, look(got))) == got
            &&& data_out_step(stage2, look(got), buf.len()) == Step::Done(
                if data.len() > buf.len() {
                    Err::<usize, EndpointError>(EndpointError::BufferOverflow)
                } else {
                    Ok(data.len() as usize)
                },
            )
            &&& run(got, data_out_ops(stage2, look(got))) == got
            &&& mem.len() == 64
            &&& data.len() <= buf.len() ==> data_out_into(
                data_out_step(stage2, look(got), buf.len()),
                mem,
                buf,
            ) == data + buf.skip(data.len() as int)
        }),
{
    let open = run(hw, data_out_ops(Stage::Start, look(hw)));
    let quiet = interrupted(open, ep_count, before);
    let sent = host_sent(quiet, 0, data);
    law_data_out_effect(hw, Stage::Start, look(hw));
    lemma_interrupted_frame(open, ep_count, before);
    lemma_interrupted_unrelated(open, ep_count, before, 0);
    law_out_interrupt(sent, ep_count, arrived);
    assert(sent.buffers[spec_ep_buf(0)].take(data.len() as int) =~= data);
}

/// Sending a chunk on the hardware. The host fetches exactly the chunk. However many
/// other interrupts come, the next step waits, changes nothing, and the chunk stays
/// what the host fetches. When the host has fetched it, the task is woken, goes on at
/// once, and is done with success.
pub proof fn law_data_in_on_hardware(
    hw: Hardware,
    ep_count: usize,
    before: Seq<InterruptStatus>,
    data: Seq<u8>,
    last: bool,
    max: u16,
    fetched: InterruptStatus,
)
    requires
        ep_count == 4 || ep_count == 8,
        !hw.setup,
        !hw.cut[(0, Direction::In)],
        hw.dma[dma_of(0)] == spec_ep_buf(0),
        hw.buffers[spec_ep_buf(0)].len() == 64,
        data.len() <= max,
        data.len() <= 64,
        forall|i: int| 0 <= i < before.len() ==> unrelated(#[trigger] before[i], 2),
        fetched.int_fg.transfer,
        fetched.token == 2,
        fetched.endp == 0,
    ensures
        ({
            let queued = run(hw, data_in_ops(Stage::Start, look(hw), data, last, max));
            let stage1 = data_in_next(Stage::Start, look(hw), data.len(), max);
            let quiet = interrupted(queued, ep_count, before);
            let sent = run(quiet, interrupt_ops(ep_count, fetched));
            let stage2 = data_in_next(stage1, look(sent), data.len(), max);
            &&& data_in_step(Stage::Start, look(hw), data.len(), max) is Again
            &&& data_in_step(stage1, look(quiet), data.len(), max) is Wait
            &&& data_in_next(stage1, look(quiet), data.len(), max) == stage1
            &&& run(quiet, data_in_ops(stage1, look(quiet), data, last, max)) == quiet
            &&& quiet.ctrl[ctrl_of(0)].t_res == 0
            &&& host_packet(quiet, 0) == data
            &&& sent.woken.contains(WakerId::In(0))
            &&& data_in_step(stage1, look(sent), data.len(), max) is Again
            &&& run(sent, data_in_ops(stage1, look(sent), data, last, max)) == sent
            &&& data_in_step(stage2, look(sent), data.len(), max) == Step::Done(
                Ok::<(), EndpointError>(()),
            )
            &&& run(sent, data_in_ops(stage2, look(sent), data, last, max)).ctrl[ctrl_of(0)].r_res
                == if last {
                0
            } else {
                sent.ctrl[ctrl_of(0)].r_res
            }
        }),
{
    let queued = run(hw, data_in_ops(Stage::Start, look(hw), data, last, max));
    let quiet = interrupted(queued, ep_count, before);
    let sent = run(quiet, interrupt_ops(ep_count, fetched));
    law_data_in_effect(hw, Stage::Start, look(hw), data, last, max);
    lemma_interrupted_frame(queued, ep_count, before);
    lemma_interrupted_unrelated(queued, ep_count, before, 2);
    assert(host_packet(quiet, 0) =~= data);
    law_in_interrupt(quiet, ep_count, fetched);
    law_data_in_effect(sent, Stage::Ending, look(sent), data, last, max);
}

/// Accepting an address on the hardware. The host is answered with an empty packet.
/// However many other interrupts come, the next step waits and the address stays. When
/// the host has fetched the packet, the task is woken and done, and from then on, not
/// before, the device answers to the new address. When a SETUP packet comes instead,
/// it is done as well, and the address stays.
pub proof fn law_set_address_on_hardware(
    hw: Hardware,
    ep_count: usize,
    before: Seq<InterruptStatus>,
    addr: u8,
    fetched: InterruptStatus,
    setup: InterruptStatus,
)
    requires
        ep_count == 4 || ep_count == 8,
        !hw.setup,
        !hw.cut[(0, Direction::In)],
        forall|i: int| 0 <= i < before.len() ==> unrelated(#[trigger] before[i], 2),
        fetched.int_fg.transfer,
        fetched.token == 2,
        fetched.endp == 0,
        setup.int_fg.transfer,
        setup.token == 3,
    ensures
        ({
            let zlp = run(hw, set_address_ops(Stage::Start, look(hw), addr));
            let stage1 = status_next(Stage::Start, look(hw));
            let quiet = interrupted(zlp, ep_count, before);
            let sent = run(quiet, interrupt_ops(ep_count, fetched));
            let again = run(quiet, interrupt_ops(ep_count, setup));
            &&& forget(status_step(Stage::Start, look(hw))) is Again
            &&& forget(status_step(stage1, look(quiet))) is Wait
            &&& status_next(stage1, look(quiet)) == stage1
            &&& run(quiet, set_address_ops(stage1, look(quiet), addr)) == quiet
            &&& host_packet(quiet, 0) == Seq::<u8>::empty()
            &&& quiet.ctrl[ctrl_of(0)].t_res == 0
            &&& quiet.dev_addr == hw.dev_addr
            &&& sent.woken.contains(WakerId::In(0))
            &&& sent.dev_addr == hw.dev_addr
            &&& forget(status_step(stage1, look(sent))) is Done
            &&& run(sent, set_address_ops(stage1, look(sent), addr)) == Hardware {
                dev_addr: addr,
                ..sent
            }
            &&& forget(status_step(stage1, look(again))) is Done
            &&& run(again, set_address_ops(stage1, look(again), addr)) == again
            &&& again.dev_addr == hw.dev_addr
        }),
{
    let zlp = run(hw, set_address_ops(Stage::Start, look(hw), addr));
    let quiet = interrupted(zlp, ep_count, before);
    let sent = run(quiet, interrupt_ops(ep_count, fetched));
    let again = run(quiet, interrupt_ops(ep_count, setup));
    law_status_effect(hw, Stage::Start, look(hw), addr);
    lemma_interrupted_frame(zlp, ep_count, before);
    lemma_interrupted_unrelated(zlp, ep_count, before, 2);
    assert(host_packet(quiet, 0) =~= Seq::<u8>::empty());
    law_in_interrupt(quiet, ep_count, fetched);
    law_setup_interrupt(quiet, ep_count, setup);
    law_status_effect(quiet, Stage::Waiting, look(quiet), addr);
    law_status_effect(sent, Stage::Waiting, look(sent), addr);
    law_status_effect(again, Stage::Waiting, look(again), addr);
}

/// A SETUP packet fails every stage under way, on the hardware: from a stage that
/// waits, whatever the state, both data stages go on at once and fail as disabled, and
/// neither asks for anything.
pub proof fn law_setup_fails_stages(
    hw: Hardware,
    ep_count: usize,
    setup: InterruptStatus,
    data: Seq<u8>,
    last: bool,
    max: u16,
    buf_len: nat,
)
    requires
        !hw.cut[(0, Direction::In)],
        !hw.cut[(0, Direction::Out)],
        setup.int_fg.transfer,
        setup.token == 3,
    ensures
        ({
            let again = run(hw, interrupt_ops(ep_count, setup));
            let out = data_out_next(Stage::Waiting, look(again));
            let sending = data_in_next(Stage::Waiting, look(again), data.len(), max);
            &&& data_out_step(Stage::Waiting, look(again), buf_len) is Again
            &&& data_out_step(out, look(again), buf_len) == Step::Done(
                Err::<usize, EndpointError>(EndpointError::Disabled),
            )
            &&& run(again, data_out_ops(out, look(again))) == again
            &&& data_in_step(Stage::Waiting, look(again), data.len(), max) is Again
            &&& data_in_step(sending, look(again), data.len(), max) == Step::Done(
                Err::<(), EndpointError>(EndpointError::Disabled),
            )
            &&& run(again, data_in_ops(sending, look(again), data, last, max)) == again
        }),
{
    law_setup_interrupt(hw, ep_count, setup);
}

/// A SETUP packet on the hardware: the host's request, which the hardware puts where
/// the DMA register points, is noted and wakes the task; the task picks it up, goes on
/// at once, and is done with exactly the bytes of the request. Afterwards no SETUP
/// packet and no reset is noted, and a further look waits.
pub proof fn law_setup_on_hardware(
    hw: Hardware,
    ep_count: usize,
    request: Seq<u8>,
    arrived: InterruptStatus,
)
    requires
        hw.dma[dma_of(0)] == spec_ep_buf(0),
        hw.buffers[spec_ep_buf(0)].len() == 64,
        request.len() == 8,
        arrived.int_fg.transfer,
        arrived.token == 3,
    ensures
        ({
            let noted = run(host_sent(hw, 0, request), interrupt_ops(ep_count, arrived));
            let stage1 = setup_next(Stage::Start, look(noted));
            let picked = run(noted, setup_step_ops(Stage::Start, look(noted)));
            let packet = setup_packet(picked.buffers[spec_ep_buf(0)]);
            &&& noted.woken.contains(WakerId::Out(0))
            &&& setup_step(Stage::Start, look(noted), packet) is Again
            &&& setup_step(stage1, look(picked), packet) == Step::Done(request)
            &&& run(picked, setup_step_ops(stage1, look(picked))) == picked
            &&& !picked.setup
            &&& !picked.cut[(0, Direction::In)]
            &&& !picked.cut[(0, Direction::Out)]
            &&& picked.ctrl[ctrl_of(0)] == UepCtrl { t_tog: true, r_tog: true, t_res: 2, r_res: 2 }
            &&& setup_step(Stage::Start, look(picked), packet) is Wait
        }),
{
    let sent = host_sent(hw, 0, request);
    let noted = run(sent, interrupt_ops(ep_count, arrived));
    let picked = run(noted, setup_step_ops(Stage::Start, look(noted)));
    law_setup_interrupt(sent, ep_count, arrived);
    law_setup_effect(noted, Stage::Start, look(noted), 0);
    assert(picked.buffers[spec_ep_buf(0)].take(8) =~= request);
}

} // verus!
